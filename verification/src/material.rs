//! Surface materials and the Phong lighting kernel.

use vstd::prelude::*;

use crate::color::{Color, black_s, white_s};
use crate::fx::{FX_ONE, fx_mul, fx_mul_s, fx_pow, fx_pow_s};
use crate::mapping::{ColorMapping, ScalarMapping, UniformMapping, UniformPattern};
use crate::tuple::{Point, Vector, v_dot_s};

verus! {

/// How a light's contribution falls off with distance.
#[derive(Clone, Copy, Debug, PartialEq, Eq, Structural)]
pub enum Attenuation {
    /// No falloff.
    Off,
    /// Ten over the distance.
    Linear,
    /// One hundred over the squared distance.
    Squared,
}

/// A parameter bundle: procedural fields for the Phong channels, the
/// optional reflective and transparent channels, and the refractive
/// index of the interior.
#[derive(Clone, Debug)]
pub struct Material {
    pub color: ColorMapping,
    pub ambient: ScalarMapping,
    pub diffuse: ScalarMapping,
    pub specular: ScalarMapping,
    pub shininess: ScalarMapping,
    pub reflective: Option<ScalarMapping>,
    pub transparency: Option<ScalarMapping>,
    pub refractive_index: i64,
    pub attenuation: Attenuation,
}

/// The material's channels sampled at one object-space point.
#[derive(Clone, Copy, Debug, PartialEq, Eq, Structural)]
pub struct HitMaterial {
    pub color: Color,
    pub ambient: i64,
    pub diffuse: i64,
    pub specular: i64,
    pub shininess: i64,
}

impl Material {
    /// All the fields of the material are well-formed.
    pub open spec fn wf(self) -> bool {
        &&& self.color.wf()
        &&& self.ambient.wf()
        &&& self.diffuse.wf()
        &&& self.specular.wf()
        &&& self.shininess.wf()
        &&& match self.reflective {
            Option::Some(m) => m.wf(),
            Option::None => true,
        }
        &&& match self.transparency {
            Option::Some(m) => m.wf(),
            Option::None => true,
        }
    }

    /// The channels sampled at one object-space point, as a spec
    /// value.
    pub open spec fn sample_s(self, p: Point) -> HitMaterial {
        HitMaterial {
            color: self.color.at_object_s(p),
            ambient: self.ambient.at_object_s(p) as i64,
            diffuse: self.diffuse.at_object_s(p) as i64,
            specular: self.specular.at_object_s(p) as i64,
            shininess: self.shininess.at_object_s(p) as i64,
        }
    }

    /// Sample the Phong channels at one object-space point.
    pub fn sample(&self, p: &Point) -> (res: HitMaterial)
        requires
            self.wf(),
        ensures
            res == self.sample_s(*p),
    {
        HitMaterial {
            color: self.color.at_object(p),
            ambient: self.ambient.at_object(p),
            diffuse: self.diffuse.at_object(p),
            specular: self.specular.at_object(p),
            shininess: self.shininess.at_object(p),
        }
    }
}

impl Default for Material {
    /// Matte white: ambient a tenth, diffuse and specular nine
    /// tenths, shininess two hundred, no reflection, no transparency,
    /// the refractive index of vacuum, no attenuation.
    fn default() -> (res: Material)
        ensures
            res.color == ColorMapping::Uniform(UniformPattern { value: white_s() }),
            res.ambient == ScalarMapping::Uniform(UniformMapping { value: 6554i64 }),
            res.diffuse == ScalarMapping::Uniform(UniformMapping { value: 58982i64 }),
            res.specular == ScalarMapping::Uniform(UniformMapping { value: 58982i64 }),
            res.shininess == ScalarMapping::Uniform(UniformMapping { value: 13107200i64 }),
            res.reflective.is_none(),
            res.transparency.is_none(),
            res.refractive_index == FX_ONE,
            res.attenuation == Attenuation::Off,
    {
        Material {
            color: ColorMapping::uniform(crate::color::white()),
            ambient: ScalarMapping::uniform(6554),
            diffuse: ScalarMapping::uniform(58982),
            specular: ScalarMapping::uniform(58982),
            shininess: ScalarMapping::uniform(13107200),
            reflective: Option::None,
            transparency: Option::None,
            refractive_index: FX_ONE,
            attenuation: Attenuation::Off,
        }
    }
}

/// The Phong contribution of one light sample, as a spec value: the
/// ambient term always; when unshadowed and the light faces the
/// surface, the diffuse term, and the specular term when the
/// reflected light faces the eye.  The exponent is the whole part of
/// the shininess channel.
pub open spec fn lighting_s(
    hm: HitMaterial,
    intensity: Color,
    lightv: Vector,
    eyev: Vector,
    normalv: Vector,
    in_shadow: bool,
) -> Color {
    let effective = hm.color.times_s(intensity);
    let ambient_term = effective.scale_s(hm.ambient as int);
    let ldn = v_dot_s(lightv, normalv);
    if in_shadow || ldn <= 0 {
        ambient_term
    } else {
        let with_diffuse = ambient_term.plus_s(
            effective.scale_s(fx_mul_s(hm.diffuse as int, ldn)),
        );
        let reflectv = lightv.negate_s().reflect_s(normalv);
        let rde = v_dot_s(reflectv, eyev);
        if rde > 0 {
            let shin = crate::fx::fx_floor_s(hm.shininess as int);
            let exponent = if shin > 0xffff_ffff {
                0xffff_ffff as nat
            } else if shin < 0 {
                0 as nat
            } else {
                shin as nat
            };
            let factor = fx_pow_s(rde, exponent);
            with_diffuse.plus_s(intensity.scale_s(fx_mul_s(hm.specular as int, factor)))
        } else {
            with_diffuse
        }
    }
}

/// The Phong contribution of one light sample.  In shadow only the
/// ambient term survives.
pub fn lighting(
    hm: &HitMaterial,
    intensity: &Color,
    lightv: &Vector,
    eyev: &Vector,
    normalv: &Vector,
    in_shadow: bool,
) -> (res: Color)
    ensures
        res == lighting_s(*hm, *intensity, *lightv, *eyev, *normalv, in_shadow),
        in_shadow ==> res == hm.color.times_s(*intensity).scale_s(hm.ambient as int),
{
    let effective = hm.color.times(intensity);
    let ambient_term = effective.scale(hm.ambient);
    let ldn = lightv.dot(normalv);
    if in_shadow || ldn <= 0 {
        ambient_term
    } else {
        let with_diffuse = ambient_term.plus(&effective.scale(fx_mul(hm.diffuse, ldn)));
        let reflectv = lightv.negate().reflect(normalv);
        let rde = reflectv.dot(eyev);
        if rde > 0 {
            let shin = crate::fx::fx_floor(hm.shininess);
            let exponent: u32 = if shin > 0xffff_ffff {
                0xffff_ffffu32
            } else if shin < 0 {
                0u32
            } else {
                shin as u32
            };
            let factor = fx_pow(rde, exponent);
            with_diffuse.plus(&intensity.scale(fx_mul(hm.specular, factor)))
        } else {
            with_diffuse
        }
    }
}

/// The lighting kernel's output channels are saturated: each is the
/// result of a saturating operation, so they lie within the scalar
/// range.
pub proof fn lemma_lighting_in_range(
    hm: HitMaterial,
    intensity: Color,
    lightv: Vector,
    eyev: Vector,
    normalv: Vector,
    in_shadow: bool,
)
    ensures
        ({
            let c = lighting_s(hm, intensity, lightv, eyev, normalv, in_shadow);
            &&& -(crate::fx::FX_MAX as int) <= c.r as int <= crate::fx::FX_MAX as int
            &&& -(crate::fx::FX_MAX as int) <= c.g as int <= crate::fx::FX_MAX as int
            &&& -(crate::fx::FX_MAX as int) <= c.b as int <= crate::fx::FX_MAX as int
            &&& black_s().plus_s(c) == c
        }),
{
}

} // verus!
