//! What is recorded of a hit, and what each kind of surface decides to do
//! with the ray that hit it.
//!
//! The directions and probabilities that these decisions rest on come out of
//! arithmetic that is done elsewhere; the functions here take them as
//! arguments and say which way the ray goes.

use vstd::prelude::*;
use crate::scalar::Scalar;
use crate::structures::vec3::Vec3;
use crate::structures::ray::Ray;
use crate::color::{Color, ONE_BITS, spec_black, spec_white};

verus! {

/// One intersection of a ray with a surface.
#[derive(Clone, Copy, Debug)]
pub struct HitRecord {
    /// Where the ray met the surface.
    pub p: Vec3,
    /// The ray parameter at that point.
    pub t: Scalar,
    /// Surface coordinates of the point.
    pub u: Scalar,
    pub v: Scalar,
    /// The surface normal, turned against the ray.
    pub normal: Vec3,
    /// Whether the ray came from outside.
    pub front_face: bool,
    /// Which material of the scene covers the surface.
    pub material: usize,
}

impl HitRecord {
    /// Records a hit. `facing` is the dot product of the ray's direction with
    /// `outward_normal`: the ray comes from outside exactly when it is below
    /// zero, and otherwise the recorded normal is the outward one reversed.
    pub fn new(
        p: Vec3,
        t: Scalar,
        facing: Scalar,
        outward_normal: &Vec3,
        u: Scalar,
        v: Scalar,
        material: usize,
    ) -> (record: HitRecord)
        ensures
            record.p == p,
            record.t == t,
            record.u == u,
            record.v == v,
            record.material == material,
            record.front_face == facing.lt(Scalar::zero()),
            record.normal == if record.front_face {
                *outward_normal
            } else {
                outward_normal.neg()
            },
    {
        let front_face = facing.lt(Scalar::zero());
        HitRecord {
            p,
            t,
            u,
            v,
            front_face,
            normal: if front_face {
                *outward_normal
            } else {
                outward_normal.neg()
            },
            material,
        }
    }
}

/// A diffuse surface, coloured by a texture.
#[derive(Debug)]
pub struct Lambertian<T> {
    pub albedo: T,
}

impl<T> Lambertian<T> {
    pub fn new(albedo: T) -> (m: Lambertian<T>)
        ensures
            m.albedo == albedo,
    {
        Lambertian { albedo }
    }

    /// A diffuse surface never absorbs: the ray goes on as `scattered`,
    /// tinted by `attenuation`, the texture's colour at the hit.
    pub fn scatter(&self, attenuation: Color, scattered: Ray) -> (out: Option<(Color, Ray)>)
        ensures
            out == Some((attenuation, scattered)),
    {
        Some((attenuation, scattered))
    }

    /// A diffuse surface gives off no light.
    pub fn emitted(&self) -> (c: Color)
        ensures
            c == spec_black(),
    {
        crate::color::black()
    }
}

/// A mirror-like surface; `fuzz` blurs the reflection.
#[derive(Clone, Copy, Debug)]
pub struct Metal {
    pub albedo: Color,
    pub fuzz: Scalar,
}

impl Metal {
    /// `fuzz` held between 0 and 1: 0 below 0, the value itself up to 1, and
    /// 1 for anything else, NaN included.
    pub open spec fn held_fuzz(fuzz: Scalar) -> Scalar {
        if fuzz.lt(Scalar::zero()) {
            Scalar::zero()
        } else if fuzz.lt(Scalar { bits: ONE_BITS }) {
            fuzz
        } else {
            Scalar { bits: ONE_BITS }
        }
    }

    pub fn new(albedo: Color, fuzz: Scalar) -> (m: Metal)
        ensures
            m.albedo == albedo,
            m.fuzz == Metal::held_fuzz(fuzz),
            Scalar::zero().le(m.fuzz) && m.fuzz.le(Scalar { bits: ONE_BITS }),
    {
        let one = Scalar { bits: ONE_BITS };
        Metal {
            albedo,
            fuzz: if fuzz.lt(Scalar::zero()) {
                Scalar::zero()
            } else if fuzz.lt(one) {
                fuzz
            } else {
                one
            },
        }
    }

    /// `scattered` is the reflected, blurred ray and `facing` the dot product
    /// of its direction with the surface normal. The ray goes on, tinted by
    /// the albedo, exactly when it leaves the surface (`facing` above zero);
    /// one that points into the surface is absorbed.
    pub fn scatter(&self, scattered: Ray, facing: Scalar) -> (out: Option<(Color, Ray)>)
        ensures
            facing.gt(Scalar::zero()) ==> out == Some((self.albedo, scattered)),
            !facing.gt(Scalar::zero()) ==> out is None,
    {
        if facing.gt(Scalar::zero()) {
            Some((self.albedo, scattered))
        } else {
            None
        }
    }

    /// Metal gives off no light.
    pub fn emitted(&self) -> (c: Color)
        ensures
            c == spec_black(),
    {
        crate::color::black()
    }
}

/// A clear, refracting surface such as glass.
#[derive(Clone, Copy, Debug)]
pub struct Dielectric {
    pub ref_idx: Scalar,
}

impl Dielectric {
    /// Whether the ray is reflected rather than refracted: always when
    /// `bend`, the refraction ratio times the sine of the angle of incidence,
    /// is above 1 (no refracted ray exists), and otherwise when the random
    /// `draw` falls below the reflectance.
    pub open spec fn reflects(bend: Scalar, reflectance: Scalar, draw: Scalar) -> bool {
        bend.gt(Scalar { bits: ONE_BITS }) || draw.lt(reflectance)
    }

    pub fn new(ref_idx: Scalar) -> (m: Dielectric)
        ensures
            m.ref_idx == ref_idx,
    {
        Dielectric { ref_idx }
    }

    /// The cosine of the angle of incidence, held at one: rounding may carry
    /// the dot product of two unit vectors past it. Anything that is not
    /// below one, NaN included, counts as one.
    pub open spec fn held_cosine(cosine: Scalar) -> Scalar {
        if cosine.lt(Scalar { bits: ONE_BITS }) {
            cosine
        } else {
            Scalar { bits: ONE_BITS }
        }
    }

    pub fn cosine(&self, cosine: Scalar) -> (held: Scalar)
        ensures
            held == Dielectric::held_cosine(cosine),
            held.le(Scalar { bits: ONE_BITS }),
    {
        if cosine.lt(Scalar { bits: ONE_BITS }) {
            cosine
        } else {
            Scalar { bits: ONE_BITS }
        }
    }

    /// The ratio of refractive indices that the ray meets: `reciprocal`, one
    /// over the index, where it enters the body, and the index itself where
    /// it leaves.
    pub fn etai_over_etat(&self, front_face: bool, reciprocal: Scalar) -> (ratio: Scalar)
        ensures
            ratio == if front_face {
                reciprocal
            } else {
                self.ref_idx
            },
    {
        if front_face {
            reciprocal
        } else {
            self.ref_idx
        }
    }

    /// Glass never absorbs and never tints: the ray goes on with full
    /// strength, as `reflected` where it reflects and as `refracted`
    /// otherwise.
    pub fn scatter(
        &self,
        bend: Scalar,
        reflectance: Scalar,
        draw: Scalar,
        reflected: Ray,
        refracted: Ray,
    ) -> (out: Option<(Color, Ray)>)
        ensures
            out == Some(
                (
                    spec_white(),
                    if Dielectric::reflects(bend, reflectance, draw) {
                        reflected
                    } else {
                        refracted
                    },
                ),
            ),
    {
        if bend.gt(Scalar { bits: ONE_BITS }) || draw.lt(reflectance) {
            Some((crate::color::white(), reflected))
        } else {
            Some((crate::color::white(), refracted))
        }
    }

    /// Glass gives off no light.
    pub fn emitted(&self) -> (c: Color)
        ensures
            c == spec_black(),
    {
        crate::color::black()
    }
}

/// A surface that shines with the colour of a texture.
#[derive(Debug)]
pub struct DiffuseLight<T> {
    pub emit: T,
}

impl<T> DiffuseLight<T> {
    pub fn new(emit: T) -> (m: DiffuseLight<T>)
        ensures
            m.emit == emit,
    {
        DiffuseLight { emit }
    }

    /// A light never passes a ray on.
    pub fn scatter(&self) -> (out: Option<(Color, Ray)>)
        ensures
            out is None,
    {
        None
    }

    /// A light gives off `radiance`, its texture's colour at the hit.
    pub fn emitted(&self, radiance: Color) -> (c: Color)
        ensures
            c == radiance,
    {
        radiance
    }
}

} // verus!
