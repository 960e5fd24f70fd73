//! Materials: how a surface treats light. A material is described here and
//! shared by the shapes that use it; scattering a ray off it is numerical
//! work and the caller's.

use crate::fault::SceneError;
use crate::texture::{in_unit, is_unit, SolidColor, TextureEnum};
use crate::vec3::{Scalar, Vec3};
use vstd::prelude::*;

verus! {

/// A material of one of the three kinds.
#[derive(Debug, PartialEq, Eq)]
pub enum Material {
    Lambertian(Lambertian),
    Metal(Metal),
    Dielectric(Dielectric),
}

/// A matte surface: light leaves it in every direction, tinted by the
/// texture.
#[derive(Debug, PartialEq, Eq)]
pub struct Lambertian {
    pub texture: TextureEnum,
}

/// A mirror-like surface tinted by the texture. With a `fuzz`, between 0 and
/// 1, the reflection is blurred.
#[derive(Debug, PartialEq, Eq)]
pub struct Metal {
    pub texture: TextureEnum,
    pub fuzz: Option<Scalar>,
}

/// Clear matter such as glass, which both reflects and refracts.
#[derive(Clone, Copy, Debug, PartialEq, Eq, Structural)]
pub struct Dielectric {
    /// Refractive index in vacuum or air, or the ratio of the material's
    /// index over that of the enclosing medium.
    pub refractive_index: Scalar,
    /// The amount of blur on the surface. Higher values make the glass look
    /// frosted.
    pub fuzz: Option<Scalar>,
}

impl Lambertian {
    /// The matte material with the given texture.
    pub fn new(texture: TextureEnum) -> (made: Self)
        ensures
            made.texture == texture,
    {
        Lambertian { texture }
    }

    /// The matte material of one colour.
    pub fn new_rgb_solid(r: Scalar, g: Scalar, b: Scalar) -> (made: Self)
        ensures
            made.texture == TextureEnum::SolidColor(SolidColor { color: Vec3 { x: r, y: g, z: b } }),
    {
        let texture = SolidColor::new_rgb(r, g, b);
        Lambertian::new(TextureEnum::SolidColor(texture))
    }
}

impl Metal {
    /// The metal of one colour.
    pub fn new_solid(color: Vec3, fuzz: Option<Scalar>) -> (made: Self)
        ensures
            made.texture == TextureEnum::SolidColor(SolidColor { color }),
            made.fuzz == fuzz,
    {
        let solid_texture = TextureEnum::SolidColor(SolidColor::new(color));
        Metal::new(solid_texture, fuzz)
    }

    /// The metal with the given texture.
    pub fn new(texture: TextureEnum, fuzz: Option<Scalar>) -> (made: Self)
        ensures
            made.texture == texture,
            made.fuzz == fuzz,
    {
        Metal { texture, fuzz }
    }
}

impl Dielectric {
    /// Clear matter with the given refractive index.
    pub fn new(refractive_index: Scalar) -> (made: Self)
        ensures
            made == (Dielectric { refractive_index, fuzz: None }),
    {
        Dielectric { refractive_index, fuzz: None }
    }

    /// Frosted matter with the given refractive index and blur.
    pub fn new_frosted(refractive_index: Scalar, fuzz: Scalar) -> (made: Self)
        ensures
            made == (Dielectric { refractive_index, fuzz: Some(fuzz) }),
    {
        Dielectric { refractive_index, fuzz: Some(fuzz) }
    }
}

impl Material {
    /// The first fault of the material, if it has one: a metal whose blur is
    /// outside of 0 to 1, a fault in the texture of a matte or metal
    /// surface, clear matter whose refractive index is not positive.
    pub open spec fn fault(self) -> Option<SceneError> {
        match self {
            Material::Lambertian(matte) => matte.texture.fault(),
            Material::Metal(metal) => if metal.fuzz matches Some(fuzz) && !is_unit(fuzz) {
                Some(SceneError::Fuzz)
            } else {
                metal.texture.fault()
            },
            Material::Dielectric(glass) => if glass.refractive_index@ <= 0 {
                Some(SceneError::RefractiveIndex)
            } else {
                None
            },
        }
    }

    /// Looks for a fault in the material and names the first.
    pub fn check(&self) -> (found: Result<(), SceneError>)
        ensures
            match self.fault() {
                None => found is Ok,
                Some(e) => found == Err::<(), SceneError>(e),
            },
    {
        match self {
            Material::Lambertian(matte) => matte.texture.check(),
            Material::Metal(metal) => {
                match metal.fuzz {
                    Some(fuzz) => {
                        if !in_unit(fuzz) {
                            return Err(SceneError::Fuzz);
                        }
                    },
                    None => {},
                }
                metal.texture.check()
            },
            Material::Dielectric(glass) => {
                if glass.refractive_index.milli <= 0 {
                    Err(SceneError::RefractiveIndex)
                } else {
                    Ok(())
                }
            },
        }
    }
}

} // verus!
