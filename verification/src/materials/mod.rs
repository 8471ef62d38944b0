use vstd::prelude::*;
use crate::geometry::ray::{black, Ray};
use crate::geometry::scalar::{Scalar, ONE_BITS};
use crate::geometry::vector::{Color, Vector};
use crate::objects::hit_record::HitRecord;

verus! {

/// What a surface is made of. `T` is the caller's texture.
#[allow(inconsistent_fields)]
#[derive(Clone)]
pub enum Material<T> {
    Dielectric { ref_index: Scalar },
    DiffuseLight { emit: T },
    Isotropic { albedo: T },
    Lambertian { albedo: T },
    Metal { albedo: Color, fuzz: Scalar },
}

/// The makers of the five materials.
pub struct Dielectric;

pub struct DiffuseLight;

pub struct Isotropic;

pub struct Lambertian;

pub struct Metal;

/// What the optics of a transparent surface come to for one ray: `bend` is the
/// ratio of the refractive indices times the sine of the angle of incidence,
/// `reflect_prob` the share of light that the surface reflects at that angle,
/// `chance` a number drawn between zero and one, and the two vectors are the
/// directions in which the ray would go on if reflected and if refracted.
#[derive(Clone, Copy, Debug, PartialEq, Eq, Structural)]
pub struct Refraction {
    pub bend: Scalar,
    pub reflect_prob: Scalar,
    pub chance: Scalar,
    pub reflected: Vector,
    pub refracted: Vector,
}

/// A ray thrown back by a metal: the direction it takes, and the dot product
/// of that direction with the surface normal.
#[derive(Clone, Copy, Debug, PartialEq, Eq, Structural)]
pub struct Reflection {
    pub direction: Vector,
    pub facing: Scalar,
}

/// A ray scattered by a dull surface or inside a medium: the direction it
/// takes, and the colour of the surface where it was hit.
#[derive(Clone, Copy, Debug, PartialEq, Eq, Structural)]
pub struct Diffusion {
    pub attenuation: Color,
    pub direction: Vector,
}

/// The number one.
pub open spec fn one() -> Scalar {
    Scalar { bits: ONE_BITS }
}

/// The colour that weakens nothing.
pub open spec fn white() -> Color {
    Color { x: one(), y: one(), z: one() }
}

/// The roughness that a metal is made with: `fuzz` held between zero and one,
/// and one where `fuzz` is not a number.
pub open spec fn roughness(fuzz: Scalar) -> Scalar {
    if fuzz.spec_lt(Scalar { bits: 0 }) {
        Scalar { bits: 0 }
    } else if fuzz.spec_lt(one()) {
        fuzz
    } else {
        one()
    }
}

impl Refraction {
    /// Whether the ray is reflected: always where it cannot be refracted,
    /// which is where `bend` is above one; else where the number drawn falls
    /// below the share that is reflected.
    pub open spec fn reflects(self) -> bool {
        self.bend.spec_gt(one()) || self.chance.spec_lt(self.reflect_prob)
    }

    /// The direction in which the ray goes on.
    pub open spec fn direction(self) -> Vector {
        if self.reflects() {
            self.reflected
        } else {
            self.refracted
        }
    }
}

impl Reflection {
    /// Whether the ray leaves the surface; one that points into it, or along
    /// it, is absorbed.
    pub open spec fn leaves(self) -> bool {
        self.facing.spec_gt(Scalar { bits: 0 })
    }
}

/// What a transparent surface makes of a ray: it goes on from the point hit,
/// reflected or refracted, and loses nothing.
pub open spec fn through_glass(p: Vector, time: Scalar, optics: Refraction) -> Option<(Color, Ray)> {
    Some((white(), Ray { origin: p, direction: optics.direction(), time }))
}

/// What a metal makes of a ray: thrown back from the point hit and tinted by
/// the metal's colour, if it leaves the surface at all.
pub open spec fn off_metal(albedo: Color, p: Vector, time: Scalar, bounce: Reflection) -> Option<
    (Color, Ray),
> {
    if bounce.leaves() {
        Some((albedo, Ray { origin: p, direction: bounce.direction, time }))
    } else {
        None
    }
}

/// What a dull surface or a medium makes of a ray: it goes on from the point
/// hit in the direction drawn, tinted by the colour found there.
pub open spec fn diffused(p: Vector, time: Scalar, spread: Diffusion) -> Option<(Color, Ray)> {
    Some((spread.attenuation, Ray { origin: p, direction: spread.direction, time }))
}

impl Dielectric {
    pub fn new<T>(ref_index: Scalar) -> (m: Material<T>)
        ensures
            m == (Material::<T>::Dielectric { ref_index }),
    {
        Material::Dielectric { ref_index }
    }

    /// Scatters a ray at a transparent surface. `lens` works out the optics
    /// from the surface's refractive index and from whether the ratio of
    /// indices is the inverse of it, which it is where the ray comes from
    /// outside.
    pub fn scatter<M, L: FnOnce(Scalar, bool) -> Refraction>(
        ref_index: Scalar,
        rec: &HitRecord<M>,
        time: Scalar,
        lens: L,
    ) -> (out: Option<(Color, Ray)>)
        requires
            call_requires(lens, (ref_index, rec.front_face)),
        ensures
            exists|optics: Refraction| #[trigger]
                call_ensures(lens, (ref_index, rec.front_face), optics) && out == through_glass(
                    rec.p,
                    time,
                    optics,
                ),
    {
        let attenuation = Color::from(Scalar::one());
        let optics = lens(ref_index, rec.front_face);
        if optics.bend.gt(Scalar::one()) {
            let scattered = Ray::new(rec.p, optics.reflected, time);
            return Some((attenuation, scattered));
        }
        if optics.chance.lt(optics.reflect_prob) {
            let scattered = Ray::new(rec.p, optics.reflected, time);
            return Some((attenuation, scattered));
        }
        let scattered = Ray::new(rec.p, optics.refracted, time);
        Some((attenuation, scattered))
    }
}

impl DiffuseLight {
    pub fn new<T>(emit: T) -> (m: Material<T>)
        ensures
            m == (Material::DiffuseLight { emit }),
    {
        Material::DiffuseLight { emit }
    }
}

impl Isotropic {
    pub fn new<T>(albedo: T) -> (m: Material<T>)
        ensures
            m == (Material::Isotropic { albedo }),
    {
        Material::Isotropic { albedo }
    }

    /// Scatters a ray inside a medium. `haze` draws the direction, any
    /// direction alike, and looks up the medium's colour.
    pub fn scatter<T, M, I: FnOnce(&T) -> Diffusion>(
        albedo: &T,
        rec: &HitRecord<M>,
        time: Scalar,
        haze: I,
    ) -> (out: Option<(Color, Ray)>)
        requires
            call_requires(haze, (albedo,)),
        ensures
            exists|spread: Diffusion| #[trigger]
                call_ensures(haze, (albedo,), spread) && out == diffused(rec.p, time, spread),
    {
        let spread = haze(albedo);
        let scattered = Ray::new(rec.p, spread.direction, time);
        Some((spread.attenuation, scattered))
    }
}

impl Lambertian {
    pub fn new<T>(albedo: T) -> (m: Material<T>)
        ensures
            m == (Material::Lambertian { albedo }),
    {
        Material::Lambertian { albedo }
    }

    /// Scatters a ray at a dull surface. `diffuse` draws the direction, about
    /// the surface normal, and looks up the surface's colour.
    pub fn scatter<T, M, D: FnOnce(&T) -> Diffusion>(
        albedo: &T,
        rec: &HitRecord<M>,
        time: Scalar,
        diffuse: D,
    ) -> (out: Option<(Color, Ray)>)
        requires
            call_requires(diffuse, (albedo,)),
        ensures
            exists|spread: Diffusion| #[trigger]
                call_ensures(diffuse, (albedo,), spread) && out == diffused(rec.p, time, spread),
    {
        let spread = diffuse(albedo);
        let scattered = Ray::new(rec.p, spread.direction, time);
        Some((spread.attenuation, scattered))
    }
}

impl Metal {
    /// A metal of the given colour, its roughness held between zero and one.
    pub fn new<T>(albedo: Color, fuzz: Scalar) -> (m: Material<T>)
        ensures
            m == (Material::<T>::Metal { albedo, fuzz: roughness(fuzz) }),
    {
        Material::Metal { albedo, fuzz: Metal::fuzz(fuzz) }
    }

    /// The roughness that a metal made with `fuzz` has.
    pub fn fuzz(fuzz: Scalar) -> (r: Scalar)
        ensures
            r == roughness(fuzz),
    {
        if fuzz.lt(Scalar::zero()) {
            Scalar::zero()
        } else if fuzz.lt(Scalar::one()) {
            fuzz
        } else {
            Scalar::one()
        }
    }

    /// Scatters a ray at a metal. `mirror` reflects the ray about the normal
    /// and blurs it by the roughness it is given.
    pub fn scatter<M, R: FnOnce(Scalar) -> Reflection>(
        albedo: Color,
        fuzz: Scalar,
        rec: &HitRecord<M>,
        time: Scalar,
        mirror: R,
    ) -> (out: Option<(Color, Ray)>)
        requires
            call_requires(mirror, (roughness(fuzz),)),
        ensures
            exists|bounce: Reflection| #[trigger]
                call_ensures(mirror, (roughness(fuzz),), bounce) && out == off_metal(
                    albedo,
                    rec.p,
                    time,
                    bounce,
                ),
    {
        let bounce = mirror(Metal::fuzz(fuzz));
        let scattered = Ray::new(rec.p, bounce.direction, time);
        if bounce.facing.gt(Scalar::zero()) {
            Some((albedo, scattered))
        } else {
            None
        }
    }
}

impl<T> Material<T> {
    /// Whether `out` can be what [`Material::scatter`] returns: what the
    /// material's own way of scattering makes of what its helper brings, and
    /// nothing for a light, which scatters no ray.
    pub open spec fn scatters<
        L: FnOnce(Scalar, bool) -> Refraction,
        R: FnOnce(Scalar) -> Reflection,
        D: FnOnce(&T) -> Diffusion,
        I: FnOnce(&T) -> Diffusion,
    >(
        self,
        p: Vector,
        front_face: bool,
        time: Scalar,
        lens: L,
        mirror: R,
        diffuse: D,
        haze: I,
        out: Option<(Color, Ray)>,
    ) -> bool {
        match self {
            Material::Dielectric { ref_index } => exists|optics: Refraction| #[trigger]
                call_ensures(lens, (ref_index, front_face), optics) && out == through_glass(p, time, optics),
            Material::DiffuseLight { emit } => out is None,
            Material::Isotropic { albedo } => exists|spread: Diffusion| #[trigger]
                call_ensures(haze, (&albedo,), spread) && out == diffused(p, time, spread),
            Material::Lambertian { albedo } => exists|spread: Diffusion| #[trigger]
                call_ensures(diffuse, (&albedo,), spread) && out == diffused(p, time, spread),
            Material::Metal { albedo, fuzz } => exists|bounce: Reflection| #[trigger]
                call_ensures(mirror, (roughness(fuzz),), bounce) && out == off_metal(albedo, p, time, bounce),
        }
    }

    /// What becomes of a ray at a surface of this material, hit as `rec`
    /// tells, at `time`: the colour by which the light is weakened and the ray
    /// that goes on, or nothing if the ray is absorbed. Of the four helpers
    /// the one for this material is called, once; a light calls none.
    pub fn scatter<
        M,
        L: FnOnce(Scalar, bool) -> Refraction,
        R: FnOnce(Scalar) -> Reflection,
        D: FnOnce(&T) -> Diffusion,
        I: FnOnce(&T) -> Diffusion,
    >(&self, rec: &HitRecord<M>, time: Scalar, lens: L, mirror: R, diffuse: D, haze: I) -> (out: Option<
        (Color, Ray),
    >)
        requires
            forall|r: Scalar, inv: bool| call_requires(lens, (r, inv)),
            forall|f: Scalar| call_requires(mirror, (f,)),
            forall|t: &T| call_requires(diffuse, (t,)),
            forall|t: &T| call_requires(haze, (t,)),
        ensures
            self.scatters(rec.p, rec.front_face, time, lens, mirror, diffuse, haze, out),
    {
        match self {
            Material::Dielectric { ref_index } => Dielectric::scatter(*ref_index, rec, time, lens),
            Material::DiffuseLight { .. } => None,
            Material::Isotropic { albedo } => Isotropic::scatter(albedo, rec, time, haze),
            Material::Lambertian { albedo } => Lambertian::scatter(albedo, rec, time, diffuse),
            Material::Metal { albedo, fuzz } => Metal::scatter(*albedo, *fuzz, rec, time, mirror),
        }
    }

    /// Whether `color` can be what [`Material::emitted`] returns: what
    /// `sample` finds in a light's texture, and black for any other material.
    pub open spec fn emits<S: FnOnce(&T) -> Color>(self, sample: S, color: Color) -> bool {
        match self {
            Material::DiffuseLight { emit } => call_ensures(sample, (&emit,), color),
            _ => color == black(),
        }
    }

    /// The light that the surface gives off. `sample` looks up a texture at
    /// the point hit.
    pub fn emitted<S: FnOnce(&T) -> Color>(&self, sample: S) -> (color: Color)
        requires
            forall|t: &T| call_requires(sample, (t,)),
        ensures
            self.emits(sample, color),
    {
        match self {
            Material::DiffuseLight { emit } => sample(emit),
            _ => Color::from(Scalar::zero()),
        }
    }
}

/// A ray that cannot be refracted is reflected, whatever number was drawn:
/// where the ratio of indices times the sine of the angle of incidence is
/// above one, the ray leaves in the reflected direction.
pub proof fn lemma_total_internal_reflection(p: Vector, time: Scalar, optics: Refraction)
    requires
        optics.bend.spec_gt(one()),
    ensures
        through_glass(p, time, optics) == Some(
            (white(), Ray { origin: p, direction: optics.reflected, time }),
        ),
{
}

/// A light scatters no ray, and only a light gives off light that is not
/// black.
pub proof fn lemma_only_lights_emit<
    T,
    L: FnOnce(Scalar, bool) -> Refraction,
    R: FnOnce(Scalar) -> Reflection,
    D: FnOnce(&T) -> Diffusion,
    I: FnOnce(&T) -> Diffusion,
    S: FnOnce(&T) -> Color,
>(
    m: Material<T>,
    p: Vector,
    front_face: bool,
    time: Scalar,
    lens: L,
    mirror: R,
    diffuse: D,
    haze: I,
    out: Option<(Color, Ray)>,
    sample: S,
    color: Color,
)
    requires
        m.scatters(p, front_face, time, lens, mirror, diffuse, haze, out),
        m.emits(sample, color),
    ensures
        m is DiffuseLight ==> out is None,
        !(m is DiffuseLight) ==> color == black(),
{
}

} // verus!
