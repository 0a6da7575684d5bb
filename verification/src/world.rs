//! The scene: shapes, lights, and the recursive color pipeline.

use vstd::prelude::*;

use crate::bounds::transform_bounds;
use crate::bvh::{Bvh, BvhIter, is_leaf_with};
use crate::color::{Color, black, black_s, white_s};
use crate::fx::{FX_EPS, FX_ONE, fx_add, fx_add_s, fx_div, fx_div_s, fx_mul, fx_mul_s, fx_pow, fx_pow_s, fx_sqrt, fx_sqrt_s, fx_sub, fx_sub_s, sat64};
use crate::intersection::Intersection;
use crate::light::{Light, LightHit, attenuation_factor, attenuation_factor_s};
use crate::material::{Attenuation, HitMaterial, Material, lemma_lighting_in_range, lighting, lighting_s};
use crate::ray::Ray;
use crate::shape::{BoundedChild, ShapeSet};
use crate::tuple::{Point, Vector, v_dot_s};

verus! {

/// Eagerly computed facts about one confirmed hit, ready for
/// shading.
#[derive(Clone, Copy, Debug)]
pub struct Hit {
    pub intersection: Intersection,
    pub point: Point,
    pub object_point: Point,
    pub eyev: Vector,
    pub normalv: Vector,
    pub inside: bool,
    pub reflectv: Vector,
    pub n1: i64,
    pub n2: i64,
}

/// The hit bundle, as a spec value: the world point at the
/// parameter, the eye vector, the surface normal flipped toward the
/// eye, the reflection of the ray, and the refractive indices of the
/// crossed interface (vacuum against the material; the interface
/// resolves only for single materials surrounded by vacuum).
pub open spec fn prepare_hit_s(shapes: ShapeSet, x: Intersection, ray: Ray) -> Hit {
    let point = ray.position_s(x.t as int);
    let object_point = shapes.world_to_object_s(x.shape as int, point);
    let eyev = ray.direction.negate_s().normalize_s();
    let normal_raw = shapes.normal_at_s(x.shape as int, point, x.uv);
    let inside = v_dot_s(normal_raw, eyev) < 0;
    let normalv = if inside {
        normal_raw.negate_s()
    } else {
        normal_raw
    };
    let reflectv = ray.direction.reflect_s(normalv);
    let transparent = shapes.shading_material_s(x.shape as int).transparency is Some;
    let ri = shapes.shading_material_s(x.shape as int).refractive_index;
    let n1 = if transparent && inside {
        ri
    } else {
        FX_ONE
    };
    let n2 = if !transparent || inside {
        FX_ONE
    } else {
        ri
    };
    Hit {
        intersection: x,
        point,
        object_point,
        eyev,
        normalv,
        inside,
        reflectv,
        n1,
        n2,
    }
}

/// Prepare the hit bundle for one intersection.  After the backface
/// flip the normal never faces away from the eye: their dot product
/// is non-negative.
pub fn prepare_hit(shapes: &ShapeSet, x: &Intersection, ray: &Ray) -> (res: Hit)
    requires
        shapes.wf(),
        x.shape < shapes.nodes.len(),
        !(shapes.nodes[x.shape as int].kind is Group),
        shapes.uv_ok_s(x.shape as int, x.uv),
    ensures
        res == prepare_hit_s(*shapes, *x, *ray),
        v_dot_s(res.normalv, res.eyev) >= 0,
{
    let point = ray.position(x.t);
    let object_point = shapes.world_to_object(x.shape, &point);
    let eyev = ray.direction.negate().normalize();
    let normal_raw = shapes.normal_at(x.shape, &point, x.uv);
    let d = normal_raw.dot(&eyev);
    let inside = d < 0;
    let normalv = if inside {
        normal_raw.negate()
    } else {
        normal_raw
    };
    proof {
        if inside {
            lemma_dot_negate(normal_raw, eyev);
        }
    }
    let reflectv = ray.direction.reflect(&normalv);
    let mat = shapes.shading_material(x.shape);
    let transparent = mat.transparency.is_some();
    let ri = mat.refractive_index;
    let (n1, n2) = if transparent {
        if inside {
            (ri, FX_ONE)
        } else {
            (FX_ONE, ri)
        }
    } else {
        (FX_ONE, FX_ONE)
    };
    Hit {
        intersection: *x,
        point,
        object_point,
        eyev,
        normalv,
        inside,
        reflectv,
        n1,
        n2,
    }
}

/// Negating a vector makes a negative dot product non-negative: the
/// products flip sign exactly, and a negative sum has a non-negative
/// quotient after negation.
proof fn lemma_dot_negate(n: Vector, e: Vector)
    requires
        v_dot_s(n, e) < 0,
    ensures
        v_dot_s(n.negate_s(), e) >= 0,
{
    let sx = sat64(n.x as int);
    let sy = sat64(n.y as int);
    let sz = sat64(n.z as int);
    let ex = sat64(e.x as int);
    let ey = sat64(e.y as int);
    let ez = sat64(e.z as int);
    let total = sx * ex + sy * ey + sz * ez;
    assert(sat64(n.negate_s().x as int) == -sx);
    assert(sat64(n.negate_s().y as int) == -sy);
    assert(sat64(n.negate_s().z as int) == -sz);
    assert((-sx) * ex == -(sx * ex)) by (nonlinear_arith);
    assert((-sy) * ey == -(sy * ey)) by (nonlinear_arith);
    assert((-sz) * ez == -(sz * ez)) by (nonlinear_arith);
    if total >= 0 {
        vstd::arithmetic::div_mod::lemma_div_basics_4(total, 65536);
        assert(total / 65536 >= 0);
        assert(false);
    }
    vstd::arithmetic::div_mod::lemma_div_basics_4(-total, 65536);
}

/// The Schlick reflectance of a hit, as a spec value: the cosine is
/// clamped into [0, 1]; a denser first medium raises it to the
/// transmitted cosine or reports total internal reflection as one.
pub open spec fn schlick_s(h: Hit) -> int {
    let cos0 = v_dot_s(h.eyev, h.normalv);
    let cos = if cos0 < 0 {
        0
    } else if cos0 > FX_ONE as int {
        FX_ONE as int
    } else {
        cos0
    };
    let tir = h.n1 > h.n2 && {
        let n_ratio = fx_div_s(h.n1 as int, h.n2 as int);
        let sin2_t = fx_mul_s(fx_mul_s(n_ratio, n_ratio), fx_sub_s(FX_ONE as int, fx_mul_s(cos, cos)));
        sin2_t > FX_ONE as int
    };
    if tir {
        FX_ONE as int
    } else {
        let cos2 = if h.n1 > h.n2 {
            let n_ratio = fx_div_s(h.n1 as int, h.n2 as int);
            let sin2_t = fx_mul_s(
                fx_mul_s(n_ratio, n_ratio),
                fx_sub_s(FX_ONE as int, fx_mul_s(cos, cos)),
            );
            fx_sqrt_s(fx_sub_s(FX_ONE as int, sin2_t))
        } else {
            cos
        };
        let q = fx_div_s(fx_sub_s(h.n1 as int, h.n2 as int), fx_add_s(h.n1 as int, h.n2 as int));
        let r0 = fx_mul_s(q, q);
        fx_add_s(r0, fx_mul_s(fx_sub_s(FX_ONE as int, r0), fx_pow_s(fx_sub_s(FX_ONE as int, cos2), 5)))
    }
}

impl Hit {
    /// The Schlick reflectance of the hit.
    pub fn schlick(&self) -> (res: i64)
        ensures
            res == schlick_s(*self),
    {
        let cos0 = self.eyev.dot(&self.normalv);
        let cos = if cos0 < 0 {
            0
        } else if cos0 > FX_ONE {
            FX_ONE
        } else {
            cos0
        };
        let mut cos2 = cos;
        if self.n1 > self.n2 {
            let n_ratio = fx_div(self.n1, self.n2);
            let sin2_t = fx_mul(fx_mul(n_ratio, n_ratio), fx_sub(FX_ONE, fx_mul(cos, cos)));
            if sin2_t > FX_ONE {
                return FX_ONE;
            }
            cos2 = fx_sqrt(fx_sub(FX_ONE, sin2_t));
        }
        let q = fx_div(fx_sub(self.n1, self.n2), fx_add(self.n1, self.n2));
        let r0 = fx_mul(q, q);
        fx_add(r0, fx_mul(fx_sub(FX_ONE, r0), fx_pow(fx_sub(FX_ONE, cos2), 5)))
    }
}

/// A scene: the arena of shapes, the bounded roots with a hierarchy
/// over them, and the lights.
#[derive(Clone, Debug)]
pub struct World {
    pub shapes: ShapeSet,
    pub roots: Vec<BoundedChild>,
    pub bvh: Bvh,
    pub lights: Vec<Light>,
}

impl World {
    /// The arena is well-formed, the roots name its shapes, and the
    /// hierarchy's leaves correspond one to one with the roots.
    pub open spec fn wf(self) -> bool {
        &&& self.shapes.wf()
        &&& self.roots.len() < 0x4000_0000
        &&& forall|k: int|
            0 <= k < self.roots.len() ==> (#[trigger] self.roots[k]).shape
                < self.shapes.nodes.len()
        &&& self.bvh.leaves_match(
            self.roots@.map_values(|c: BoundedChild| c.bh_index),
            self.roots.len() as int,
        )
        &&& self.bvh.links_ok()
        &&& self.roots.len() > 0 ==> crate::bvh::subtree_wf(
            self.bvh.nodes@,
            self.roots@.map_values(|c: BoundedChild| c.bounds),
            0,
            self.bvh.nodes.len() as int,
            0,
            self.roots.len() as int,
            0,
        )
        &&& forall|j: int|
            0 <= j < self.roots.len() ==> (#[trigger] self.roots[j]).bh_index
                < self.bvh.nodes.len() && is_leaf_with(
                self.bvh.nodes[self.roots[j].bh_index as int],
                j,
            )
    }

    /// Build a world over root shapes of an arena.  Each root's
    /// bounds are its local bounds carried through its transform; the
    /// hierarchy is built over those boxes, and each root records its
    /// leaf.
    #[verifier::rlimit(100)]
    #[verifier::spinoff_prover]
    pub fn new(shapes: ShapeSet, roots: Vec<usize>, lights: Vec<Light>) -> (res: World)
        requires
            shapes.wf(),
            roots.len() < 0x4000_0000,
            forall|k: int| 0 <= k < roots.len() ==> (#[trigger] roots[k]) < shapes.nodes.len(),
        ensures
            res.wf(),
            res.shapes == shapes,
            res.lights == lights,
            res.roots.len() == roots.len(),
            forall|k: int| 0 <= k < roots.len() ==> (#[trigger] res.roots[k]).shape == roots[k],
    {
        let n = roots.len();
        let mut cb: Vec<crate::bounds::Bounds> = Vec::new();
        let mut k: usize = 0;
        while k < n
            invariant
                0 <= k <= n,
                n == roots.len(),
                cb.len() == k,
                forall|j: int| 0 <= j < roots.len() ==> (#[trigger] roots[j]) < shapes.nodes.len(),
            decreases n - k,
        {
            let c = *roots.get(k).unwrap();
            let lb = shapes.local_bounds(c);
            let wb = transform_bounds(&lb, &shapes.nodes.get(c).unwrap().transform.m);
            cb.push(wb);
            k = k + 1;
        }
        let (bvh, leaf_of) = Bvh::build(&cb);
        let mut entries: Vec<BoundedChild> = Vec::new();
        k = 0;
        while k < n
            invariant
                0 <= k <= n,
                n == roots.len(),
                cb.len() == n,
                leaf_of.len() == n,
                entries.len() == k,
                forall|j: int| 0 <= j < roots.len() ==> (#[trigger] roots[j]) < shapes.nodes.len(),
                forall|j: int|
                    0 <= j < k ==> (#[trigger] entries[j]).shape == roots[j] && entries[j].bh_index
                        == leaf_of[j] && entries[j].shape < shapes.nodes.len() && entries[j].bounds
                        == cb[j],
            decreases n - k,
        {
            entries.push(
                BoundedChild {
                    shape: *roots.get(k).unwrap(),
                    bounds: *cb.get(k).unwrap(),
                    bh_index: *leaf_of.get(k).unwrap(),
                },
            );
            k = k + 1;
        }
        let res = World { shapes, roots: entries, bvh, lights };
        proof {
            assert(res.roots@.map_values(|c: BoundedChild| c.bh_index) =~= leaf_of@);
            assert(res.roots@.map_values(|c: BoundedChild| c.bounds) =~= cb@);
        }
        res
    }

    /// The nearest hit among the candidate roots `cands`; earlier
    /// candidates win ties.
    pub open spec fn world_hit_seq_s(self, ray: Ray, cands: Seq<int>) -> Option<Intersection>
        decreases cands.len(),
    {
        if cands.len() == 0 {
            Option::None
        } else {
            let prev = self.world_hit_seq_s(ray, cands.drop_last());
            let k = cands.last();
            let cur = if 0 <= k < self.roots.len() && self.roots[k].shape
                < self.shapes.nodes.len() {
                self.shapes.shape_hit_s(self.roots[k].shape as int, ray)
            } else {
                Option::None
            };
            ShapeSet::nearer_s(prev, cur)
        }
    }

    /// The nearest hit of a world ray: the fold over the candidates
    /// the hierarchy's pruned walk yields.
    pub open spec fn world_hit_s(self, ray: Ray) -> Option<Intersection> {
        self.world_hit_seq_s(ray, crate::bvh::visit_s(self.bvh.nodes@, ray, 0))
    }

    /// The nearest hit of a world ray: the traversal of the hierarchy
    /// yields its candidates one by one and the smallest parameter
    /// wins.  The result is exactly `world_hit_s`: nothing is
    /// reported when no candidate hits, and the reported hit is
    /// minimal among them all.
    #[verifier::rlimit(100)]
    #[verifier::spinoff_prover]
    pub fn intersects(&self, ray: &Ray) -> (res: Option<Intersection>)
        requires
            self.wf(),
        ensures
            res == self.world_hit_s(*ray),
            match res {
                Option::Some(x) => self.shapes.hit_valid_s(x),
                Option::None => true,
            },
    {
        let mut best: Option<Intersection> = Option::None;
        let mut it = BvhIter::new();
        let ghost total = crate::bvh::visit_s(self.bvh.nodes@, *ray, 0);
        let ghost mut consumed: Seq<int> = Seq::empty();
        proof {
            assert(total =~= consumed + it.remaining_s(self.bvh, *ray));
        }
        loop
            invariant
                self.wf(),
                it.inv_s(self.bvh),
                total == crate::bvh::visit_s(self.bvh.nodes@, *ray, 0),
                total == consumed + it.remaining_s(self.bvh, *ray),
                best == self.world_hit_seq_s(*ray, consumed),
                match best {
                    Option::Some(x) => self.shapes.hit_valid_s(x),
                    Option::None => true,
                },
            decreases it.remaining_s(self.bvh, *ray).len(),
        {
            match it.next(&self.bvh, ray) {
                Option::None => {
                    proof {
                        assert(consumed =~= total);
                    }
                    return best;
                },
                Option::Some(ri) => {
                    let ghost prev_consumed = consumed;
                    let cur = if ri < self.roots.len() {
                        let shape = self.roots.get(ri).unwrap().shape;
                        self.shapes.intersects(shape, ray)
                    } else {
                        Option::None
                    };
                    proof {
                        consumed = consumed.push(ri as int);
                        assert(total =~= consumed + it.remaining_s(self.bvh, *ray));
                        assert(consumed.drop_last() =~= prev_consumed);
                        assert(consumed.last() == ri as int);
                        assert(cur == if 0 <= ri < self.roots.len()
                            && self.roots[ri as int].shape < self.shapes.nodes.len() {
                            self.shapes.shape_hit_s(self.roots[ri as int].shape as int, *ray)
                        } else {
                            Option::<Intersection>::None
                        });
                    }
                    best = match (best, cur) {
                        (Option::Some(b), Option::Some(x)) => if x.t < b.t {
                            Option::Some(x)
                        } else {
                            Option::Some(b)
                        },
                        (Option::Some(b), Option::None) => Option::Some(b),
                        (Option::None, c2) => c2,
                    };
                    proof {
                        assert(best == ShapeSet::nearer_s(
                            self.world_hit_seq_s(*ray, prev_consumed),
                            cur,
                        ));
                        assert(best == self.world_hit_seq_s(*ray, consumed));
                    }
                },
            }
        }
    }

    /// The shadow ray of a light sample: it starts a hundred
    /// tolerances along the light vector to avoid hitting the shaded
    /// surface itself.
    pub open spec fn shadow_ray_s(lh: LightHit, point: Point) -> Ray {
        Ray {
            origin: point.plus_vec_s(lh.lightv.scale_s(100 * (FX_EPS as int))),
            direction: lh.lightv,
        }
    }

    /// Whether a light sample is shadowed, as a spec value: some
    /// box-entered shape intersects the shadow ray nearer than the
    /// light.
    pub open spec fn is_shadowed_s(self, lh: LightHit, point: Point) -> bool {
        match self.world_hit_s(World::shadow_ray_s(lh, point)) {
            Option::Some(x) => x.t < lh.distance,
            Option::None => false,
        }
    }

    /// Whether anything stands between a shaded point and a light
    /// sample: exactly when the shadow ray's nearest hit lies nearer
    /// than the light.
    pub fn is_shadowed(&self, lh: &LightHit, point: &Point) -> (res: bool)
        requires
            self.wf(),
        ensures
            res == self.is_shadowed_s(*lh, *point),
    {
        let origin = point.plus_vec(&lh.lightv.scale(100 * FX_EPS));
        let r = Ray { origin, direction: lh.lightv };
        match self.intersects(&r) {
            Option::Some(x) => x.t < lh.distance,
            Option::None => false,
        }
    }

    /// Every light of the world is deterministic: a point or a
    /// directional light, whose single sample is a function of the
    /// shaded point alone.  Area lights draw random jitter, so a
    /// world holding one has no deterministic color.
    pub open spec fn deterministic_lights(self) -> bool {
        forall|li: int| 0 <= li < self.lights.len() ==> !((#[trigger] self.lights[li]) is Area)
    }

    /// The single sample and attenuation of a deterministic light at
    /// a point.  (The area arm is never reached under the
    /// deterministic premise; it yields an inert sample.)
    pub open spec fn det_sample_s(light: Light, p: Point) -> (LightHit, Attenuation) {
        match light {
            Light::Point(pl) => (pl.hit_s(p), pl.attenuation),
            Light::Directional(dl) => (dl.hit_s(), Attenuation::Off),
            Light::Area(al) => (
                LightHit { lightv: Vector { x: 0, y: 0, z: 0 }, distance: 0, intensity: black_s() },
                Attenuation::Off,
            ),
        }
    }

    /// One sample's contribution to a hit: shadow-tested against the
    /// world, attenuated with distance, and run through the lighting
    /// kernel.
    #[verifier::opaque]
    pub open spec fn contribution_s(
        self,
        hm: HitMaterial,
        hit: Hit,
        sa: LightHit,
        att_kind: Attenuation,
    ) -> Color {
        let shadowed = self.is_shadowed_s(sa, hit.point);
        let att = attenuation_factor_s(att_kind, sa.distance as int);
        let intensity = sa.intensity.scale_s(att);
        lighting_s(hm, intensity, sa.lightv, hit.eyev, hit.normalv, shadowed)
    }

    /// One deterministic light's contribution to a hit.
    pub open spec fn light_contribution_s(self, hm: HitMaterial, hit: Hit, light: Light) -> Color {
        let sa = World::det_sample_s(light, hit.point);
        self.contribution_s(hm, hit, sa.0, sa.1)
    }

    /// The Phong surface of a hit over the first `k` lights.
    #[verifier::opaque]
    pub open spec fn surface_upto_s(self, hm: HitMaterial, hit: Hit, k: int) -> Color
        decreases k,
    {
        if k <= 0 {
            black_s()
        } else {
            self.surface_upto_s(hm, hit, k - 1).plus_s(
                self.light_contribution_s(hm, hit, self.lights[k - 1]),
            )
        }
    }

    /// The Phong surface of a hit: the shading material sampled at
    /// the object point, lit by every light in turn.
    pub open spec fn surface_s(self, hit: Hit) -> Color {
        let hm = self.shapes.shading_material_s(hit.intersection.shape as int).sample_s(
            hit.object_point,
        );
        self.surface_upto_s(hm, hit, self.lights.len() as int)
    }

    /// The reflection bounce, as a spec value: black once the budget
    /// is spent or the material does not reflect, else the color of
    /// the offset reflection ray scaled by the reflective channel.
    pub open spec fn reflected_s(self, hit: Hit, remaining: int) -> Color
        decreases remaining, 1int,
    {
        if remaining <= 0 {
            black_s()
        } else {
            match self.shapes.shading_material_s(hit.intersection.shape as int).reflective {
                Option::Some(refl) => {
                    let origin = hit.point.plus_vec_s(hit.reflectv.scale_s(100 * (FX_EPS as int)));
                    let r = Ray { origin, direction: hit.reflectv };
                    self.color_at_s(r, remaining - 1).scale_s(refl.at_object_s(hit.object_point))
                },
                Option::None => black_s(),
            }
        }
    }

    /// The refraction bounce, as a spec value: black once the budget
    /// is spent, for an opaque material, or under total internal
    /// reflection, else the color of the offset refracted ray scaled
    /// by the transparency channel.
    pub open spec fn refracted_s(self, hit: Hit, remaining: int) -> Color
        decreases remaining, 1int,
    {
        if remaining <= 0 {
            black_s()
        } else {
            match self.shapes.shading_material_s(hit.intersection.shape as int).transparency {
                Option::Some(transp) => {
                    let n_ratio = fx_div_s(hit.n1 as int, hit.n2 as int);
                    let cos_i = v_dot_s(hit.eyev, hit.normalv);
                    let sin2_t = fx_mul_s(
                        fx_mul_s(n_ratio, n_ratio),
                        fx_sub_s(FX_ONE as int, fx_mul_s(cos_i, cos_i)),
                    );
                    if sin2_t > FX_ONE as int {
                        black_s()
                    } else {
                        let cos_t = fx_sqrt_s(fx_sub_s(FX_ONE as int, sin2_t));
                        let direction = hit.normalv.scale_s(
                            fx_sub_s(fx_mul_s(n_ratio, cos_i), cos_t),
                        ).minus_s(hit.eyev.scale_s(n_ratio));
                        let origin = hit.point.plus_vec_s(
                            hit.normalv.scale_s(-(FX_EPS as int)),
                        ).plus_vec_s(direction.scale_s(100 * (FX_EPS as int)));
                        let r = Ray { origin, direction };
                        self.color_at_s(r, remaining - 1).scale_s(
                            transp.at_object_s(hit.object_point),
                        )
                    }
                },
                Option::None => black_s(),
            }
        }
    }

    /// The shade of a prepared hit, as a spec value: the surface
    /// plus both bounces, Schlick-blended when the material both
    /// reflects and transmits.
    pub open spec fn shade_hit_s(self, hit: Hit, remaining: int) -> Color
        decreases remaining, 2int,
    {
        let surface = self.surface_s(hit);
        let reflected = self.reflected_s(hit, remaining);
        let refracted = self.refracted_s(hit, remaining);
        let mat = self.shapes.shading_material_s(hit.intersection.shape as int);
        if mat.transparency is Some && mat.reflective is Some {
            let r = schlick_s(hit);
            surface.plus_s(reflected.scale_s(r)).plus_s(
                refracted.scale_s(fx_sub_s(FX_ONE as int, r)),
            )
        } else {
            surface.plus_s(reflected).plus_s(refracted)
        }
    }

    /// The color of a world ray, as a spec value: black where no
    /// box-entered root hits, else the shade of the nearest hit.
    pub open spec fn color_at_s(self, ray: Ray, remaining: int) -> Color
        decreases remaining, 3int,
    {
        match self.world_hit_s(ray) {
            Option::Some(x) => self.shade_hit_s(prepare_hit_s(self.shapes, x, ray), remaining),
            Option::None => black_s(),
        }
    }

    /// The samples a light may hand the shader at a point: a point
    /// or directional light hands exactly its one deterministic
    /// sample; an area light hands one grid sample per cell and
    /// jitter round, each for some offsets in `[0, 1)`.
    pub open spec fn light_samples_ok(light: Light, p: Point, samples: Seq<LightHit>) -> bool {
        match light {
            Light::Point(pl) => samples == seq![pl.hit_s(p)],
            Light::Directional(dl) => samples == seq![dl.hit_s()],
            Light::Area(al) => samples.len() == al.sample_count_s() && forall|k: int|
                0 <= k < samples.len() ==> al.is_grid_sample(p, k, #[trigger] samples[k]),
        }
    }

    /// The attenuation kind a light applies to its samples.
    pub open spec fn light_attenuation_s(light: Light) -> Attenuation {
        match light {
            Light::Point(pl) => pl.attenuation,
            Light::Directional(dl) => Attenuation::Off,
            Light::Area(al) => al.attenuation,
        }
    }

    /// The sum of the lighting kernel over the first `k` samples of
    /// one light, each shadow-tested and attenuated.
    #[verifier::opaque]
    pub open spec fn samples_fold_s(
        self,
        hm: HitMaterial,
        hit: Hit,
        samples: Seq<LightHit>,
        att_kind: Attenuation,
        k: int,
    ) -> Color
        decreases k,
    {
        if k <= 0 {
            black_s()
        } else {
            self.samples_fold_s(hm, hit, samples, att_kind, k - 1).plus_s(
                self.contribution_s(hm, hit, samples[k - 1], att_kind),
            )
        }
    }

    /// The surface total over the first `k` lights relates to `res`:
    /// each light contributed the fold of some samples it may hand
    /// the shader.
    #[verifier::opaque]
    pub open spec fn surface_rel_upto(self, hm: HitMaterial, hit: Hit, k: int, res: Color) -> bool
        decreases k,
    {
        if k <= 0 {
            res == black_s()
        } else {
            exists|prev: Color, samples: Seq<LightHit>|
                {
                    &&& self.surface_rel_upto(hm, hit, k - 1, prev)
                    &&& World::light_samples_ok(self.lights[k - 1], hit.point, samples)
                    &&& res == #[trigger] prev.plus_s(
                        self.samples_fold_s(
                            hm,
                            hit,
                            samples,
                            World::light_attenuation_s(self.lights[k - 1]),
                            samples.len() as int,
                        ),
                    )
                }
        }
    }

    /// The surface of a hit relates to `res`: whatever jitter the
    /// area lights drew, every light contributed the fold of samples
    /// it may hand the shader.
    pub open spec fn surface_rel(self, hit: Hit, res: Color) -> bool {
        let hm = self.shapes.shading_material_s(hit.intersection.shape as int).sample_s(
            hit.object_point,
        );
        self.surface_rel_upto(hm, hit, self.lights.len() as int, res)
    }

    /// One sample's contribution: the shadow test, the attenuation,
    /// and the lighting kernel.  The result's channels are saturated,
    /// so adding it to black returns it unchanged.
    fn sample_contribution(
        &self,
        hm: &HitMaterial,
        hit: &Hit,
        s: &LightHit,
        att_kind: &Attenuation,
    ) -> (res: Color)
        requires
            self.wf(),
        ensures
            res == self.contribution_s(*hm, *hit, *s, *att_kind),
            black_s().plus_s(res) == res,
    {
        proof {
            reveal(World::contribution_s);
        }
        let shadowed = self.is_shadowed(s, &hit.point);
        let att = attenuation_factor(att_kind, s.distance);
        let intensity = s.intensity.scale(att);
        let res = lighting(hm, &intensity, &s.lightv, &hit.eyev, &hit.normalv, shadowed);
        proof {
            lemma_lighting_in_range(
                *hm,
                intensity,
                s.lightv,
                hit.eyev,
                hit.normalv,
                shadowed,
            );
        }
        res
    }

    /// The blend of the surface and the two bounces: Schlick-weighted
    /// when the material both reflects and transmits.
    pub open spec fn shade_combine_s(self, hit: Hit, surface: Color, rc: Color, tc: Color) -> Color {
        let mat = self.shapes.shading_material_s(hit.intersection.shape as int);
        if mat.transparency is Some && mat.reflective is Some {
            let r = schlick_s(hit);
            surface.plus_s(rc.scale_s(r)).plus_s(tc.scale_s(fx_sub_s(FX_ONE as int, r)))
        } else {
            surface.plus_s(rc).plus_s(tc)
        }
    }

    /// The reflection bounce relates to `rc`: black once the budget
    /// is spent or the material does not reflect; otherwise `rc` is
    /// a related color of the offset reflection ray, scaled by the
    /// reflective channel.
    pub open spec fn reflected_rel(self, hit: Hit, remaining: int, rc: Color) -> bool
        decreases remaining, 1int,
    {
        if remaining <= 0 {
            rc == black_s()
        } else {
            match self.shapes.shading_material_s(hit.intersection.shape as int).reflective {
                Option::Some(refl) => exists|c: Color|
                    {
                        &&& self.color_at_rel(
                            Ray {
                                origin: hit.point.plus_vec_s(
                                    hit.reflectv.scale_s(100 * (FX_EPS as int)),
                                ),
                                direction: hit.reflectv,
                            },
                            remaining - 1,
                            c,
                        )
                        &&& rc == #[trigger] c.scale_s(refl.at_object_s(hit.object_point))
                    },
                Option::None => rc == black_s(),
            }
        }
    }

    /// The refraction bounce relates to `tc`: black once the budget
    /// is spent, for an opaque material, or under total internal
    /// reflection; otherwise `tc` is a related color of the offset
    /// refracted ray, scaled by the transparency channel.
    pub open spec fn refracted_rel(self, hit: Hit, remaining: int, tc: Color) -> bool
        decreases remaining, 1int,
    {
        if remaining <= 0 {
            tc == black_s()
        } else {
            match self.shapes.shading_material_s(hit.intersection.shape as int).transparency {
                Option::Some(transp) => {
                    let n_ratio = fx_div_s(hit.n1 as int, hit.n2 as int);
                    let cos_i = v_dot_s(hit.eyev, hit.normalv);
                    let sin2_t = fx_mul_s(
                        fx_mul_s(n_ratio, n_ratio),
                        fx_sub_s(FX_ONE as int, fx_mul_s(cos_i, cos_i)),
                    );
                    if sin2_t > FX_ONE as int {
                        tc == black_s()
                    } else {
                        let cos_t = fx_sqrt_s(fx_sub_s(FX_ONE as int, sin2_t));
                        let direction = hit.normalv.scale_s(
                            fx_sub_s(fx_mul_s(n_ratio, cos_i), cos_t),
                        ).minus_s(hit.eyev.scale_s(n_ratio));
                        let origin = hit.point.plus_vec_s(
                            hit.normalv.scale_s(-(FX_EPS as int)),
                        ).plus_vec_s(direction.scale_s(100 * (FX_EPS as int)));
                        exists|c: Color|
                            {
                                &&& self.color_at_rel(Ray { origin, direction }, remaining - 1, c)
                                &&& tc == #[trigger] c.scale_s(transp.at_object_s(hit.object_point))
                            }
                    }
                },
                Option::None => tc == black_s(),
            }
        }
    }

    /// The shade of a prepared hit relates to `res`: some related
    /// surface and bounce colors combine to it.
    pub open spec fn shade_rel(self, hit: Hit, remaining: int, res: Color) -> bool
        decreases remaining, 2int,
    {
        exists|surface: Color, rc: Color, tc: Color|
            {
                &&& self.surface_rel(hit, surface)
                &&& self.reflected_rel(hit, remaining, rc)
                &&& self.refracted_rel(hit, remaining, tc)
                &&& res == #[trigger] self.shade_combine_s(hit, surface, rc, tc)
            }
    }

    /// The color of a world ray relates to `res`: black where no
    /// candidate hits, else a related shade of the nearest hit.
    /// This holds of every outcome of the area lights' jitter; with
    /// deterministic lights it collapses to the exact recursion.
    pub open spec fn color_at_rel(self, ray: Ray, remaining: int, res: Color) -> bool
        decreases remaining, 3int,
    {
        match self.world_hit_s(ray) {
            Option::Some(x) => self.shade_rel(prepare_hit_s(self.shapes, x, ray), remaining, res),
            Option::None => res == black_s(),
        }
    }

    /// One step of the shade relation, from witnesses.
    proof fn lemma_shade_rel_intro(
        self,
        hit: Hit,
        remaining: int,
        surface: Color,
        rc: Color,
        tc: Color,
        res: Color,
    )
        requires
            self.surface_rel(hit, surface),
            self.reflected_rel(hit, remaining, rc),
            self.refracted_rel(hit, remaining, tc),
            res == self.shade_combine_s(hit, surface, rc, tc),
        ensures
            self.shade_rel(hit, remaining, res),
    {
    }

    /// One step of the bounce relations, from a witness.
    proof fn lemma_reflected_rel_intro(self, hit: Hit, remaining: int, c: Color, rc: Color)
        requires
            remaining >= 1,
            self.shapes.shading_material_s(hit.intersection.shape as int).reflective matches
                Option::Some(refl) && rc == c.scale_s(refl.at_object_s(hit.object_point))
                && self.color_at_rel(
                Ray {
                    origin: hit.point.plus_vec_s(hit.reflectv.scale_s(100 * (FX_EPS as int))),
                    direction: hit.reflectv,
                },
                remaining - 1,
                c,
            ),
        ensures
            self.reflected_rel(hit, remaining, rc),
    {
    }

    /// One step of the refraction relation, from a witness.
    proof fn lemma_refracted_rel_intro(self, hit: Hit, remaining: int, c: Color, tc: Color)
        requires
            remaining >= 1,
            World::refract_sin2_s(hit) <= FX_ONE as int,
            self.shapes.shading_material_s(hit.intersection.shape as int).transparency matches
                Option::Some(transp) && tc == c.scale_s(transp.at_object_s(hit.object_point))
                && self.color_at_rel(
                ({
                    let n_ratio = fx_div_s(hit.n1 as int, hit.n2 as int);
                    let cos_i = v_dot_s(hit.eyev, hit.normalv);
                    let sin2_t = fx_mul_s(
                        fx_mul_s(n_ratio, n_ratio),
                        fx_sub_s(FX_ONE as int, fx_mul_s(cos_i, cos_i)),
                    );
                    let cos_t = fx_sqrt_s(fx_sub_s(FX_ONE as int, sin2_t));
                    let direction = hit.normalv.scale_s(
                        fx_sub_s(fx_mul_s(n_ratio, cos_i), cos_t),
                    ).minus_s(hit.eyev.scale_s(n_ratio));
                    let origin = hit.point.plus_vec_s(
                        hit.normalv.scale_s(-(FX_EPS as int)),
                    ).plus_vec_s(direction.scale_s(100 * (FX_EPS as int)));
                    Ray { origin, direction }
                }),
                remaining - 1,
                c,
            ),
        ensures
            self.refracted_rel(hit, remaining, tc),
    {
    }

    /// One step of the surface relation: a light's fold, added to a
    /// related prefix total, relates the extended prefix.
    proof fn lemma_surface_rel_step(
        self,
        hm: HitMaterial,
        hit: Hit,
        k: int,
        prev: Color,
        samples: Seq<LightHit>,
        total: Color,
    )
        requires
            k >= 1,
            self.surface_rel_upto(hm, hit, k - 1, prev),
            World::light_samples_ok(self.lights[k - 1], hit.point, samples),
            total == prev.plus_s(
                self.samples_fold_s(
                    hm,
                    hit,
                    samples,
                    World::light_attenuation_s(self.lights[k - 1]),
                    samples.len() as int,
                ),
            ),
        ensures
            self.surface_rel_upto(hm, hit, k, total),
    {
        reveal(World::surface_rel_upto);
    }

    /// The Phong surface color of a hit: every light contributes
    /// each of its samples through the lighting kernel, shadowed
    /// samples keeping only their ambient share, and the sample
    /// intensity attenuated with distance.  With deterministic
    /// lights the result is exactly the spec surface.
    #[verifier::rlimit(100)]
    #[verifier::spinoff_prover]
    fn surface_color(&self, hit: &Hit) -> (res: Color)
        requires
            self.wf(),
            hit.intersection.shape < self.shapes.nodes.len(),
        ensures
            self.lights.len() == 0 ==> res == black_s(),
            self.deterministic_lights() ==> res == self.surface_s(*hit),
            self.surface_rel(*hit, res),
    {
        let hm = self.shapes.shading_material(hit.intersection.shape).sample(
            &hit.object_point,
        );
        let mut total = black();
        let mut li: usize = 0;
        proof {
            reveal(World::surface_upto_s);
            reveal(World::surface_rel_upto);
        }
        while li < self.lights.len()
            invariant
                self.wf(),
                hit.intersection.shape < self.shapes.nodes.len(),
                0 <= li <= self.lights.len(),
                self.lights.len() == 0 ==> total == black_s(),
                hm == self.shapes.shading_material_s(hit.intersection.shape as int).sample_s(
                    hit.object_point,
                ),
                self.deterministic_lights() ==> total == self.surface_upto_s(
                    hm,
                    *hit,
                    li as int,
                ),
                self.surface_rel_upto(hm, *hit, li as int, total),
            decreases self.lights.len() - li,
        {
            let light = self.lights.get(li).unwrap();
            match light {
                Light::Point(pl) => {
                    let ghost prev = total;
                    let s = pl.hit(&hit.point);
                    let contribution = self.sample_contribution(&hm, hit, &s, &pl.attenuation);
                    total = total.plus(&contribution);
                    proof {
                        reveal(World::surface_upto_s);
                        reveal(World::surface_rel_upto);
                        reveal_with_fuel(World::samples_fold_s, 2);
                        let ghost samples = seq![s];
                        assert(World::light_samples_ok(self.lights[li as int], hit.point, samples));
                        let ghost k1 = li as int + 1;
                        assert(total == prev.plus_s(
                            self.samples_fold_s(
                                hm,
                                *hit,
                                samples,
                                World::light_attenuation_s(self.lights[k1 - 1]),
                                samples.len() as int,
                            ),
                        ));
                        self.lemma_surface_rel_step(hm, *hit, k1, prev, samples, total);
                    }
                },
                Light::Directional(dl) => {
                    let ghost prev = total;
                    let s = dl.hit();
                    let contribution = self.sample_contribution(
                        &hm,
                        hit,
                        &s,
                        &Attenuation::Off,
                    );
                    total = total.plus(&contribution);
                    proof {
                        reveal(World::surface_upto_s);
                        reveal(World::surface_rel_upto);
                        reveal_with_fuel(World::samples_fold_s, 2);
                        let ghost samples = seq![s];
                        assert(World::light_samples_ok(self.lights[li as int], hit.point, samples));
                        let ghost k1 = li as int + 1;
                        assert(total == prev.plus_s(
                            self.samples_fold_s(
                                hm,
                                *hit,
                                samples,
                                World::light_attenuation_s(self.lights[k1 - 1]),
                                samples.len() as int,
                            ),
                        ));
                        self.lemma_surface_rel_step(hm, *hit, k1, prev, samples, total);
                    }
                },
                Light::Area(al) => {
                    let ghost prev = total;
                    let samples = al.hits(&hit.point);
                    let ghost att_kind = World::light_attenuation_s(self.lights[li as int]);
                    let mut part = black();
                    let mut si: usize = 0;
                    proof {
                        reveal(World::samples_fold_s);
                    }
                    while si < samples.len()
                        invariant
                            self.wf(),
                            hit.intersection.shape < self.shapes.nodes.len(),
                            0 <= si <= samples.len(),
                            att_kind == al.attenuation,
                            part == self.samples_fold_s(hm, *hit, samples@, att_kind, si as int),
                        decreases samples.len() - si,
                    {
                        let s = samples.get(si).unwrap();
                        let contribution = self.sample_contribution(&hm, hit, s, &al.attenuation);
                        part = part.plus(&contribution);
                        si = si + 1;
                        proof {
                            reveal(World::samples_fold_s);
                        }
                    }
                    total = total.plus(&part);
                    proof {
                        reveal(World::surface_upto_s);
                        reveal(World::surface_rel_upto);
                        assert(World::light_samples_ok(
                            self.lights[li as int],
                            hit.point,
                            samples@,
                        ));
                        let ghost k1 = li as int + 1;
                        assert(total == prev.plus_s(
                            self.samples_fold_s(
                                hm,
                                *hit,
                                samples@,
                                World::light_attenuation_s(self.lights[k1 - 1]),
                                samples@.len() as int,
                            ),
                        ));
                        self.lemma_surface_rel_step(hm, *hit, k1, prev, samples@, total);
                    }
                },
            }
            li = li + 1;
        }
        total
    }

    /// The squared transmitted sine of a refraction at a hit.    /// The squared transmitted sine of a refraction at a hit.
    pub open spec fn refract_sin2_s(h: Hit) -> int {
        let n_ratio = fx_div_s(h.n1 as int, h.n2 as int);
        let cos_i = v_dot_s(h.eyev, h.normalv);
        fx_mul_s(fx_mul_s(n_ratio, n_ratio), fx_sub_s(FX_ONE as int, fx_mul_s(cos_i, cos_i)))
    }

    /// The color a reflection bounce adds: black once the depth
    /// budget is spent or the material does not reflect; otherwise
    /// the reflected ray's color scaled by the reflective channel.
    fn reflected_color(&self, hit: &Hit, remaining: u8) -> (res: Color)
        requires
            self.wf(),
            hit.intersection.shape < self.shapes.nodes.len(),
        ensures
            remaining == 0 ==> res == black_s(),
            self.shapes.shading_material_s(hit.intersection.shape as int).reflective is None
                ==> res == black_s(),
            self.deterministic_lights() ==> res == self.reflected_s(*hit, remaining as int),
            self.reflected_rel(*hit, remaining as int, res),
        decreases remaining, 1int, 0int,
    {
        if remaining == 0 {
            return black();
        }
        let mat = self.shapes.shading_material(hit.intersection.shape);
        match &mat.reflective {
            Option::Some(refl) => {
                let offset = hit.reflectv.scale(100 * FX_EPS);
                let origin = hit.point.plus_vec(&offset);
                let reflect_ray = Ray { origin, direction: hit.reflectv };
                let c = self.color_at(&reflect_ray, remaining - 1);
                let res = c.scale(refl.at_object(&hit.object_point));
                proof {
                    self.lemma_reflected_rel_intro(*hit, remaining as int, c, res);
                }
                res
            },
            Option::None => black(),
        }
    }

    /// The color a refraction bounce adds: black once the depth
    /// budget is spent, where the material is opaque, or under total
    /// internal reflection; otherwise the refracted ray's color
    /// scaled by the transparency channel.
    fn refracted_color(&self, hit: &Hit, remaining: u8) -> (res: Color)
        requires
            self.wf(),
            hit.intersection.shape < self.shapes.nodes.len(),
        ensures
            remaining == 0 ==> res == black_s(),
            self.shapes.shading_material_s(hit.intersection.shape as int).transparency is None
                ==> res == black_s(),
            remaining > 0 && World::refract_sin2_s(*hit) > FX_ONE as int ==> res == black_s(),
            self.deterministic_lights() ==> res == self.refracted_s(*hit, remaining as int),
            self.refracted_rel(*hit, remaining as int, res),
        decreases remaining, 1int, 0int,
    {
        if remaining == 0 {
            return black();
        }
        let mat = self.shapes.shading_material(hit.intersection.shape);
        match &mat.transparency {
            Option::Some(transp) => {
                let n_ratio = fx_div(hit.n1, hit.n2);
                let cos_i = hit.eyev.dot(&hit.normalv);
                let sin2_t = fx_mul(fx_mul(n_ratio, n_ratio), fx_sub(FX_ONE, fx_mul(cos_i, cos_i)));
                if sin2_t > FX_ONE {
                    // total internal reflection
                    black()
                } else {
                    let cos_t = fx_sqrt(fx_sub(FX_ONE, sin2_t));
                    let direction = hit.normalv.scale(fx_sub(fx_mul(n_ratio, cos_i), cos_t)).minus(
                        &hit.eyev.scale(n_ratio),
                    );
                    let origin = hit.point.plus_vec(&hit.normalv.scale(-FX_EPS)).plus_vec(
                        &direction.scale(100 * FX_EPS),
                    );
                    let refract_ray = Ray { origin, direction };
                    let c = self.color_at(&refract_ray, remaining - 1);
                    let res = c.scale(transp.at_object(&hit.object_point));
                    proof {
                        self.lemma_refracted_rel_intro(*hit, remaining as int, c, res);
                    }
                    res
                }
            },
            Option::None => black(),
        }
    }

    /// Shade one prepared hit: the Phong surface plus the reflected
    /// and refracted bounces, blended by the Schlick reflectance when
    /// the material both reflects and transmits.  With deterministic
    /// lights the result is exactly the spec shade.
    fn shade_hit(&self, hit: &Hit, remaining: u8) -> (res: Color)
        requires
            self.wf(),
            hit.intersection.shape < self.shapes.nodes.len(),
        ensures
            self.deterministic_lights() ==> res == self.shade_hit_s(*hit, remaining as int),
            self.shade_rel(*hit, remaining as int, res),
        decreases remaining, 2int, 0int,
    {
        let surface = self.surface_color(hit);
        let reflected = self.reflected_color(hit, remaining);
        let refracted = self.refracted_color(hit, remaining);
        let mat = self.shapes.shading_material(hit.intersection.shape);
        let res = if mat.transparency.is_some() && mat.reflective.is_some() {
            let reflectance = hit.schlick();
            surface.plus(&reflected.scale(reflectance)).plus(
                &refracted.scale(fx_sub(FX_ONE, reflectance)),
            )
        } else {
            surface.plus(&reflected).plus(&refracted)
        };
        proof {
            assert(res == self.shade_combine_s(*hit, surface, reflected, refracted));
            self.lemma_shade_rel_intro(
                *hit,
                remaining as int,
                surface,
                reflected,
                refracted,
                res,
            );
        }
        res
    }

    /// The color a world ray produces: black where nothing is hit,
    /// else the shade of the nearest hit, with `remaining` bounces of
    /// reflection and refraction left.  With deterministic lights the
    /// result is exactly the spec recursion.
    pub fn color_at(&self, ray: &Ray, remaining: u8) -> (res: Color)
        requires
            self.wf(),
        ensures
            self.world_hit_s(*ray) is None ==> res == black_s(),
            self.deterministic_lights() ==> res == self.color_at_s(*ray, remaining as int),
            self.color_at_rel(*ray, remaining as int, res),
        decreases remaining, 3int, 0int,
    {
        match self.intersects(ray) {
            Option::Some(x) => {
                let hit = prepare_hit(&self.shapes, &x, ray);
                self.shade_hit(&hit, remaining)
            },
            Option::None => black(),
        }
    }
}

/// In a well-formed world every leaf of the hierarchy holds the
/// index of exactly one root, and that root records the leaf: the
/// leaf found for a root points back at it.
pub proof fn lemma_world_leaf_backref(w: World, li: int, rj: int)
    requires
        w.wf(),
        0 <= li < w.bvh.nodes.len(),
        is_leaf_with(w.bvh.nodes[li], rj),
    ensures
        0 <= rj < w.roots.len(),
        w.roots[rj].bh_index == li,
{
    let seq = w.roots@.map_values(|c: BoundedChild| c.bh_index);
    assert(is_leaf_with(w.bvh.nodes[li], rj));
    assert(0 <= rj < w.roots.len() && seq[rj] == li);
    assert(seq[rj] == w.roots[rj].bh_index);
}

impl Default for World {
    /// The customary two-sphere scene: a unit sphere with a greenish
    /// matte surface, a half-scale default sphere inside it, and one
    /// white point light up and to the left.
    fn default() -> (res: World)
        ensures
            res.wf(),
            res.shapes.nodes.len() == 2,
            res.roots.len() == 2,
            res.lights.len() == 1,
            res.shapes.nodes[0].kind is Sphere,
            res.shapes.nodes[0].transform == crate::transform::Transform::identity_s(),
            res.shapes.nodes[0].material.color == crate::mapping::ColorMapping::Uniform(
                crate::mapping::UniformPattern { value: Color { r: 52429, g: 65536, b: 39322 } },
            ),
            res.shapes.nodes[0].material.diffuse == crate::mapping::ScalarMapping::Uniform(
                crate::mapping::UniformMapping { value: 45875i64 },
            ),
            res.shapes.nodes[0].material.specular == crate::mapping::ScalarMapping::Uniform(
                crate::mapping::UniformMapping { value: 13107i64 },
            ),
            res.shapes.nodes[1].kind is Sphere,
            res.shapes.nodes[1].transform == crate::transform::Transform::scaling_s(
                32768,
                32768,
                32768,
            ),
            res.roots[0].shape == 0 && res.roots[1].shape == 1,
            res.lights[0] == Light::Point(
                crate::light::PointLight {
                    position: crate::tuple::Point { x: -655360i64, y: 655360, z: -655360i64 },
                    intensity: white_s(),
                    attenuation: Attenuation::Off,
                },
            ),
    {
        let mut set = ShapeSet::new();
        let mut m1 = Material::default();
        m1.color = crate::mapping::ColorMapping::uniform(
            Color { r: 52429, g: 65536, b: 39322 },
        );
        m1.diffuse = crate::mapping::ScalarMapping::uniform(45875);
        m1.specular = crate::mapping::ScalarMapping::uniform(13107);
        let s1 = set.add_sphere(crate::transform::Transform::identity(), m1);
        let s2 = set.add_sphere(
            crate::transform::Transform::scaling(32768, 32768, 32768),
            Material::default(),
        );
        let light = Light::Point(
            crate::light::PointLight::new(
                crate::tuple::Point { x: -655360, y: 655360, z: -655360 },
                crate::color::white(),
            ),
        );
        let mut roots: Vec<usize> = Vec::new();
        roots.push(s1);
        roots.push(s2);
        let mut lights: Vec<Light> = Vec::new();
        lights.push(light);
        World::new(set, roots, lights)
    }
}

} // verus!
