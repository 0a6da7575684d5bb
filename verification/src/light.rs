//! Point, directional and area lights.
//!
//! A light turns a shaded point into one or more samples; the world
//! asks each sample for shadowing separately.  Area lights jitter
//! their samples with random offsets; the sampling logic itself is a
//! verified function of the offsets.

use vstd::prelude::*;

use crate::color::Color;
use crate::fx::{FX_MAX, FX_ONE, fx_div, fx_div_s, fx_mul, fx_mul_s};
use crate::material::Attenuation;
use crate::tuple::{Point, Vector, v_mag_s};

verus! {

/// One sample of a light as seen from a shaded point: the direction
/// toward the light, the distance, and the sample's intensity.
#[derive(Clone, Copy, Debug, PartialEq, Eq, Structural)]
pub struct LightHit {
    pub lightv: Vector,
    pub distance: i64,
    pub intensity: Color,
}

/// A light at one position, radiating equally in all directions.
#[derive(Clone, Copy, Debug, PartialEq, Eq, Structural)]
pub struct PointLight {
    pub position: Point,
    pub intensity: Color,
    pub attenuation: Attenuation,
}

/// A light infinitely far away in a fixed direction.
#[derive(Clone, Copy, Debug, PartialEq, Eq, Structural)]
pub struct DirectionalLight {
    pub direction: Vector,
    pub intensity: Color,
}

/// A parallelogram of light, sampled over a jittered grid.
#[derive(Clone, Copy, Debug, PartialEq, Eq, Structural)]
pub struct AreaLight {
    pub position: Point,
    pub intensity: Color,
    pub attenuation: Attenuation,
    pub u_vec: Vector,
    pub v_vec: Vector,
    pub u_steps: u8,
    pub v_steps: u8,
    pub jitter: u8,
}

/// The closed set of light flavours.
#[derive(Clone, Copy, Debug, PartialEq, Eq, Structural)]
pub enum Light {
    Point(PointLight),
    Directional(DirectionalLight),
    Area(AreaLight),
}

/// The attenuation factor at a distance: one, ten over the distance,
/// or one hundred over the squared distance.
pub open spec fn attenuation_factor_s(a: Attenuation, distance: int) -> int {
    match a {
        Attenuation::Off => FX_ONE as int,
        Attenuation::Linear => fx_div_s(10 * (FX_ONE as int), distance),
        Attenuation::Squared => fx_div_s(100 * (FX_ONE as int), fx_mul_s(distance, distance)),
    }
}

/// The attenuation factor at a distance.
pub fn attenuation_factor(a: &Attenuation, distance: i64) -> (res: i64)
    ensures
        res == attenuation_factor_s(*a, distance as int),
{
    match a {
        Attenuation::Off => FX_ONE,
        Attenuation::Linear => fx_div(10 * FX_ONE, distance),
        Attenuation::Squared => fx_div(100 * FX_ONE, fx_mul(distance, distance)),
    }
}

impl PointLight {
    /// Build a point light without attenuation.
    pub fn new(position: Point, intensity: Color) -> (res: PointLight)
        ensures
            res == (PointLight { position, intensity, attenuation: Attenuation::Off }),
    {
        PointLight { position, intensity, attenuation: Attenuation::Off }
    }

    /// The single sample of a point light, as a spec value: the
    /// normalized direction toward the light and the distance to it.
    pub open spec fn hit_s(self, p: Point) -> LightHit {
        let lv = self.position.minus_point_s(p);
        LightHit {
            lightv: lv.normalize_s(),
            distance: v_mag_s(lv) as i64,
            intensity: self.intensity,
        }
    }

    /// The single sample of a point light at a shaded point.
    pub fn hit(&self, p: &Point) -> (res: LightHit)
        ensures
            res == self.hit_s(*p),
    {
        let lv = self.position.minus_point(p);
        LightHit { lightv: lv.normalize(), distance: lv.magnitude(), intensity: self.intensity }
    }
}

impl DirectionalLight {
    /// Build a directional light.
    pub fn new(direction: Vector, intensity: Color) -> (res: DirectionalLight)
        ensures
            res == (DirectionalLight { direction, intensity }),
    {
        DirectionalLight { direction, intensity }
    }

    /// The single sample of a directional light: the fixed direction
    /// at the largest representable distance.
    pub open spec fn hit_s(self) -> LightHit {
        LightHit { lightv: self.direction, distance: FX_MAX, intensity: self.intensity }
    }

    /// The single sample of a directional light.
    pub fn hit(&self) -> (res: LightHit)
        ensures
            res == self.hit_s(),
    {
        LightHit { lightv: self.direction, distance: FX_MAX, intensity: self.intensity }
    }
}

/// Relies on rand::random: a value drawn from the thread-local
/// generator; nothing can be promised of it.
pub assume_specification<T>[ rand::random::<T> ]() -> (r: T)
    where
        rand::distributions::Standard: rand::distributions::Distribution<T>,
;

/// A jitter offset in `[0, 1)`: the low sixteen bits of a random
/// draw.
fn jitter_offset() -> (res: i64)
    ensures
        0 <= res < FX_ONE,
{
    let raw: u32 = rand::random::<u32>();
    (raw % 65536) as i64
}

impl AreaLight {
    /// Build an area light without attenuation.
    pub fn new(
        position: Point,
        intensity: Color,
        uv: (Vector, Vector),
        steps: (u8, u8),
        jitter: u8,
    ) -> (res: AreaLight)
        ensures
            res == (AreaLight {
                position,
                intensity,
                attenuation: Attenuation::Off,
                u_vec: uv.0,
                v_vec: uv.1,
                u_steps: steps.0,
                v_steps: steps.1,
                jitter,
            }),
    {
        AreaLight {
            position,
            intensity,
            attenuation: Attenuation::Off,
            u_vec: uv.0,
            v_vec: uv.1,
            u_steps: steps.0,
            v_steps: steps.1,
            jitter,
        }
    }

    /// How many samples the light emits.
    pub open spec fn sample_count_s(self) -> int {
        self.u_steps as int * self.v_steps as int * self.jitter as int
    }

    /// The intensity of one sample: the light's intensity divided by
    /// the number of samples.
    pub open spec fn sample_intensity_s(self) -> Color {
        self.intensity.scale_s(
            fx_div_s(FX_ONE as int, self.sample_count_s() * (FX_ONE as int)),
        )
    }

    /// One jittered sample of the parallelogram, as a spec value:
    /// the corner vector plus the cell offsets, the cells being the
    /// parallelogram's edge vectors divided by their own step counts,
    /// with the jitter offsets `ru` and `rv` in `[0, 1)`.
    pub open spec fn sample_s(self, p: Point, u: int, v: int, ru: int, rv: int) -> LightHit {
        let corner = self.position.minus_point_s(p);
        let cell_u = Vector {
            x: fx_div_s(self.u_vec.x as int, self.u_steps as int * (FX_ONE as int)) as i64,
            y: fx_div_s(self.u_vec.y as int, self.u_steps as int * (FX_ONE as int)) as i64,
            z: fx_div_s(self.u_vec.z as int, self.u_steps as int * (FX_ONE as int)) as i64,
        };
        let cell_v = Vector {
            x: fx_div_s(self.v_vec.x as int, self.v_steps as int * (FX_ONE as int)) as i64,
            y: fx_div_s(self.v_vec.y as int, self.v_steps as int * (FX_ONE as int)) as i64,
            z: fx_div_s(self.v_vec.z as int, self.v_steps as int * (FX_ONE as int)) as i64,
        };
        let lv = corner.plus_s(cell_u.scale_s(u * (FX_ONE as int) + ru)).plus_s(
            cell_v.scale_s(v * (FX_ONE as int) + rv),
        );
        LightHit {
            lightv: lv.normalize_s(),
            distance: v_mag_s(lv) as i64,
            intensity: self.sample_intensity_s(),
        }
    }

    /// The samples of the light for given jitter offsets, one pair
    /// per sample, each in `[0, 1)`.  Sample `k` covers grid cell
    /// `(k / (v_steps * jitter), (k / jitter) % v_steps)`.
    pub fn hits_with_offsets(&self, p: &Point, offsets: &Vec<(i64, i64)>) -> (res: Vec<LightHit>)
        requires
            offsets.len() == self.sample_count_s(),
        ensures
            res.len() == self.sample_count_s(),
            forall|k: int|
                0 <= k < res.len() ==> res[k] == self.sample_s(
                    *p,
                    k / (self.v_steps as int * self.jitter as int),
                    (k / self.jitter as int) % self.v_steps as int,
                    offsets[k].0 as int,
                    offsets[k].1 as int,
                ),
    {
        let mut res: Vec<LightHit> = Vec::new();
        proof {
            crate::color::lemma_mul_le(self.u_steps as int, self.v_steps as int, 255, 255);
            crate::color::lemma_mul_le(
                self.u_steps as int * self.v_steps as int,
                self.jitter as int,
                65025,
                255,
            );
        }
        let total: usize = (self.u_steps as usize) * (self.v_steps as usize) * (
        self.jitter as usize);
        proof {
            assert(total == self.sample_count_s());
        }
        let mut k: usize = 0;
        while k < total
            invariant
                0 <= k <= total,
                total <= 16581375,
                total == self.sample_count_s(),
                offsets.len() == total,
                res.len() == k,
                self.v_steps as int * self.jitter as int >= 0,
                forall|j: int|
                    0 <= j < k ==> res[j] == self.sample_s(
                        *p,
                        j / (self.v_steps as int * self.jitter as int),
                        (j / self.jitter as int) % self.v_steps as int,
                        offsets[j].0 as int,
                        offsets[j].1 as int,
                    ),
            decreases total - k,
        {
            proof {
                crate::color::lemma_mul_le(self.v_steps as int, self.jitter as int, 255, 255);
                assert(self.v_steps as int > 0 && self.jitter as int > 0) by (nonlinear_arith)
                    requires
                        total as int == self.u_steps as int * self.v_steps as int
                            * self.jitter as int,
                        0 <= k < total as int,
                        0 <= self.u_steps as int,
                        0 <= self.v_steps as int,
                        0 <= self.jitter as int,
                ;
            }
            let vj: usize = (self.v_steps as usize) * (self.jitter as usize);
            proof {
                assert(vj > 0) by (nonlinear_arith)
                    requires
                        vj as int == self.v_steps as int * self.jitter as int,
                        self.v_steps as int > 0,
                        self.jitter as int > 0,
                ;
            }
            let u: usize = k / vj;
            let v: usize = (k / (self.jitter as usize)) % (self.v_steps as usize);
            proof {
                vstd::arithmetic::div_mod::lemma_div_nonincreasing(k as int, vj as int);
                vstd::arithmetic::div_mod::lemma_div_nonincreasing(k as int, self.jitter as int);
                vstd::arithmetic::div_mod::lemma_mod_bound(
                    k as int / self.jitter as int,
                    self.v_steps as int,
                );
            }
            let (ru, rv) = offsets[k];
            let sample = self.sample_at(p, u as i64, v as i64, ru, rv);
            res.push(sample);
            k = k + 1;
        }
        res
    }

    /// One jittered sample of the parallelogram.
    fn sample_at(&self, p: &Point, u: i64, v: i64, ru: i64, rv: i64) -> (res: LightHit)
        ensures
            res == self.sample_s(*p, u as int, v as int, ru as int, rv as int),
    {
        let corner = self.position.minus_point(p);
        let usteps_scaled = crate::tuple::sat_wide((self.u_steps as i128) * (FX_ONE as i128));
        let vsteps_scaled = crate::tuple::sat_wide((self.v_steps as i128) * (FX_ONE as i128));
        let cell_u = Vector {
            x: fx_div(self.u_vec.x, usteps_scaled),
            y: fx_div(self.u_vec.y, usteps_scaled),
            z: fx_div(self.u_vec.z, usteps_scaled),
        };
        let cell_v = Vector {
            x: fx_div(self.v_vec.x, vsteps_scaled),
            y: fx_div(self.v_vec.y, vsteps_scaled),
            z: fx_div(self.v_vec.z, vsteps_scaled),
        };
        let uu = crate::tuple::sat_wide((u as i128) * (FX_ONE as i128) + (ru as i128));
        let vv = crate::tuple::sat_wide((v as i128) * (FX_ONE as i128) + (rv as i128));
        let lv = corner.plus(&cell_u.scale(uu)).plus(&cell_v.scale(vv));
        LightHit {
            lightv: lv.normalize(),
            distance: lv.magnitude(),
            intensity: self.sample_intensity(),
        }
    }

    /// The intensity of one sample.
    fn sample_intensity(&self) -> (res: Color)
        ensures
            res == self.sample_intensity_s(),
    {
        proof {
            crate::color::lemma_mul_le(self.u_steps as int, self.v_steps as int, 255, 255);
            crate::color::lemma_mul_le(
                self.u_steps as int * self.v_steps as int,
                self.jitter as int,
                65025,
                255,
            );
        }
        let count: i64 = (self.u_steps as i64) * (self.v_steps as i64) * (self.jitter as i64);
        proof {
            crate::color::lemma_mul_le(count as int, 65536, 16581375, 65536);
        }
        let denom = crate::tuple::sat_wide((count as i128) * (FX_ONE as i128));
        self.intensity.scale(fx_div(FX_ONE, denom))
    }

    /// The sample is one of the light's jittered grid samples at
    /// position `k`, for some offsets in `[0, 1)`.
    pub open spec fn is_grid_sample(self, p: Point, k: int, h: LightHit) -> bool {
        exists|ru: int, rv: int|
            0 <= ru < FX_ONE && 0 <= rv < FX_ONE && h == #[trigger] self.sample_s(
                p,
                k / (self.v_steps as int * self.jitter as int),
                (k / self.jitter as int) % self.v_steps as int,
                ru,
                rv,
            )
    }

    /// The jittered samples of the light at a shaded point.  Whatever
    /// the random offsets turn out to be, each lies in `[0, 1)` and
    /// the samples follow the grid.
    pub fn hits(&self, p: &Point) -> (res: Vec<LightHit>)
        ensures
            res.len() == self.sample_count_s(),
            forall|k: int| 0 <= k < res.len() ==> self.is_grid_sample(*p, k, #[trigger] res[k]),
    {
        proof {
            crate::color::lemma_mul_le(self.u_steps as int, self.v_steps as int, 255, 255);
            crate::color::lemma_mul_le(
                self.u_steps as int * self.v_steps as int,
                self.jitter as int,
                65025,
                255,
            );
        }
        let total: usize = (self.u_steps as usize) * (self.v_steps as usize) * (
        self.jitter as usize);
        let mut offsets: Vec<(i64, i64)> = Vec::new();
        let mut k: usize = 0;
        while k < total
            invariant
                0 <= k <= total,
                offsets.len() == k,
                forall|j: int|
                    0 <= j < k ==> 0 <= (#[trigger] offsets[j]).0 < FX_ONE && 0 <= offsets[j].1
                        < FX_ONE,
            decreases total - k,
        {
            let ru = jitter_offset();
            let rv = jitter_offset();
            offsets.push((ru, rv));
            k = k + 1;
        }
        proof {
            assert(total == self.sample_count_s());
        }
        let res = self.hits_with_offsets(p, &offsets);
        proof {
            assert forall|k: int| 0 <= k < res.len() implies self.is_grid_sample(
                *p,
                k,
                #[trigger] res[k],
            ) by {
                let ru0 = offsets[k].0 as int;
                let rv0 = offsets[k].1 as int;
                assert(0 <= ru0 < FX_ONE && 0 <= rv0 < FX_ONE && res[k] == self.sample_s(
                    *p,
                    k / (self.v_steps as int * self.jitter as int),
                    (k / self.jitter as int) % self.v_steps as int,
                    ru0,
                    rv0,
                ));
            }
        }
        res
    }
}

} // verus!
