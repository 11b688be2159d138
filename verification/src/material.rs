//! What a surface does with a ray that hits it.
//!
//! The vectors and colours of a scattering are computed elsewhere. Decided
//! here is which of them are used: the model that belongs to a material, the
//! direction in which the ray goes on, the colour that dims it, and whether
//! it goes on at all. The numbers that these decisions compare are handed in
//! as [`Measures`].

use vstd::prelude::*;
use crate::math::component_near_zero;
use crate::math::is_positive;
use crate::math::near_zero_vec3;
use crate::math::Scalar;
use crate::math::ONE_KEY;

verus! {

/// The material of an object that names no other: scatters as
/// `MATERIAL_LAMBERTIAN` does.
pub const MATERIAL_DEFAULT: i32 = 0;

/// A matt surface.
pub const MATERIAL_LAMBERTIAN: i32 = 1;

/// A mirror.
pub const MATERIAL_METAL: i32 = 2;

/// A clear body that bends light, such as glass.
pub const MATERIAL_DIELECTRIC: i32 = 3;

/// The number of materials: the ids below it are in use.
pub const MATERIAL_NUM: i32 = 4;

/// The way in which a material scatters.
#[derive(Clone, Copy, Debug, PartialEq, Eq, Structural)]
pub enum Model {
    Lambertian,
    Metal,
    Dielectric,
}

/// The direction in which a scattered ray leaves the surface.
#[derive(Clone, Copy, Debug, PartialEq, Eq, Structural)]
pub enum Direction {
    /// The normal plus a random unit vector.
    Diffuse,
    /// The normal itself.
    Normal,
    /// The incoming direction mirrored at the surface.
    Reflected,
    /// The incoming direction bent into the body.
    Refracted,
}

/// The colour by which the surface dims the light that the scattered ray
/// brings.
#[derive(Clone, Copy, Debug, PartialEq, Eq, Structural)]
pub enum Attenuation {
    /// The albedo of the surface.
    Albedo,
    /// White: the light passes undimmed.
    White,
}

/// The numbers that a scattering is decided by. A number that came out as
/// NaN is `None`, and so may be a number that the material does not ask for.
#[derive(Clone, Copy, Debug)]
pub struct Measures {
    /// The three components of the normal plus a random unit vector; asked
    /// for by a matt surface.
    pub diffuse_x: Option<Scalar>,
    pub diffuse_y: Option<Scalar>,
    pub diffuse_z: Option<Scalar>,
    /// The inner product of the mirrored direction and the normal; asked for
    /// by a mirror.
    pub facing: Option<Scalar>,
    /// The ratio of the refractive indices times the sine of the angle
    /// between the ray and the normal; asked for by a clear body.
    pub ratio_sine: Option<Scalar>,
    /// The share of the light that a clear body mirrors at this angle.
    pub reflectance: Option<Scalar>,
    /// A random number from zero up to, but not including, one.
    pub draw: Option<Scalar>,
}

/// What a scattering comes to. For a material without a model nothing is
/// set: `direction` and `attenuation` are `None` and the ray ends.
#[derive(Clone, Copy, Debug, PartialEq, Eq, Structural)]
pub struct Scatter {
    pub direction: Option<Direction>,
    pub attenuation: Option<Attenuation>,
    pub continues: bool,
}

/// The model of the material `material_id`, if it has one.
pub open spec fn spec_model(material_id: i32) -> Option<Model> {
    if material_id == MATERIAL_LAMBERTIAN || material_id == MATERIAL_DEFAULT {
        Some(Model::Lambertian)
    } else if material_id == MATERIAL_METAL {
        Some(Model::Metal)
    } else if material_id == MATERIAL_DIELECTRIC {
        Some(Model::Dielectric)
    } else {
        None
    }
}

/// Whether a clear body cannot let the ray in and mirrors all of it: the
/// ratio of the refractive indices times the sine of the angle is greater
/// than one.
pub open spec fn spec_cannot_refract(ratio_sine: Option<Scalar>) -> bool {
    ratio_sine matches Some(s) && s@ > ONE_KEY
}

/// Whether a clear body mirrors the ray: it cannot let the ray in, or the
/// share that it mirrors is greater than the random number drawn.
pub open spec fn spec_reflects(measures: Measures) -> bool {
    ||| spec_cannot_refract(measures.ratio_sine)
    ||| (measures.reflectance matches Some(r) && measures.draw matches Some(d) && r@ > d@)
}

/// What the scattering of a ray on the material `material_id` comes to,
/// given the numbers `measures`.
pub open spec fn spec_scatter(material_id: i32, measures: Measures) -> Scatter {
    match spec_model(material_id) {
        Some(Model::Lambertian) => Scatter {
            direction: Some(
                if component_near_zero(measures.diffuse_x) && component_near_zero(
                    measures.diffuse_y,
                ) && component_near_zero(measures.diffuse_z) {
                    Direction::Normal
                } else {
                    Direction::Diffuse
                },
            ),
            attenuation: Some(Attenuation::Albedo),
            continues: true,
        },
        Some(Model::Metal) => Scatter {
            direction: Some(Direction::Reflected),
            attenuation: Some(Attenuation::Albedo),
            continues: measures.facing matches Some(f) && f@ > 0,
        },
        Some(Model::Dielectric) => Scatter {
            direction: Some(
                if spec_reflects(measures) {
                    Direction::Reflected
                } else {
                    Direction::Refracted
                },
            ),
            attenuation: Some(Attenuation::White),
            continues: true,
        },
        None => Scatter { direction: None, attenuation: None, continues: false },
    }
}

/// The model of the material `material_id`, if it has one.
pub fn model(material_id: i32) -> (found: Option<Model>)
    ensures
        found == spec_model(material_id),
{
    if material_id == MATERIAL_LAMBERTIAN || material_id == MATERIAL_DEFAULT {
        Some(Model::Lambertian)
    } else if material_id == MATERIAL_METAL {
        Some(Model::Metal)
    } else if material_id == MATERIAL_DIELECTRIC {
        Some(Model::Dielectric)
    } else {
        None
    }
}

/// Whether a clear body cannot let the ray in and mirrors all of it.
pub fn cannot_refract(ratio_sine: Option<Scalar>) -> (total: bool)
    ensures
        total == spec_cannot_refract(ratio_sine),
{
    match ratio_sine {
        Some(s) => Scalar::one().lt(s),
        None => false,
    }
}

/// What the scattering of a ray on the material `material_id` comes to,
/// given the numbers `measures`.
///
/// A clear body that cannot let the ray in mirrors it, whatever share it
/// would mirror otherwise and whatever random number was drawn.
pub fn scatter(material_id: i32, measures: &Measures) -> (scatter: Scatter)
    ensures
        scatter == spec_scatter(material_id, *measures),
        material_id == MATERIAL_DIELECTRIC && spec_cannot_refract(measures.ratio_sine)
            ==> scatter.direction == Some(Direction::Reflected),
{
    match model(material_id) {
        Some(Model::Lambertian) => {
            let degenerate: bool = near_zero_vec3(
                measures.diffuse_x,
                measures.diffuse_y,
                measures.diffuse_z,
            );
            Scatter {
                direction: Some(
                    if degenerate {
                        Direction::Normal
                    } else {
                        Direction::Diffuse
                    },
                ),
                attenuation: Some(Attenuation::Albedo),
                continues: true,
            }
        },
        Some(Model::Metal) => Scatter {
            direction: Some(Direction::Reflected),
            attenuation: Some(Attenuation::Albedo),
            continues: is_positive(measures.facing),
        },
        Some(Model::Dielectric) => {
            let reflects: bool = cannot_refract(measures.ratio_sine) || match (
                measures.reflectance,
                measures.draw,
            ) {
                (Some(r), Some(d)) => d.lt(r),
                _ => false,
            };
            Scatter {
                direction: Some(
                    if reflects {
                        Direction::Reflected
                    } else {
                        Direction::Refracted
                    },
                ),
                attenuation: Some(Attenuation::White),
                continues: true,
            }
        },
        None => Scatter { direction: None, attenuation: None, continues: false },
    }
}

/// Total internal reflection: on a clear body that cannot let the ray in,
/// the ray leaves mirrored, for every share and every random number.
pub proof fn lemma_total_internal_reflection(measures: Measures)
    requires
        spec_cannot_refract(measures.ratio_sine),
    ensures
        spec_scatter(MATERIAL_DIELECTRIC, measures).direction == Some(Direction::Reflected),
        forall|reflectance: Option<Scalar>, draw: Option<Scalar>|
            (#[trigger] spec_scatter(
                MATERIAL_DIELECTRIC,
                (Measures { reflectance, draw, ..measures }),
            )).direction == Some(Direction::Reflected),
{
}

} // verus!
