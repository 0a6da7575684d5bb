//! Parametric rays.

use vstd::prelude::*;

use crate::fx::{FX_MAX, FX_ONE, fx_mul_s, sat64};
use crate::matrix::{Matrix, map_point_s, map_vector_s};
use crate::tuple::{Point, Vector};

verus! {

/// A ray: an origin and an unnormalized direction.
#[derive(Clone, Copy, Debug, PartialEq, Eq, Structural)]
pub struct Ray {
    pub origin: Point,
    pub direction: Vector,
}

/// A scalar within the representable range.
pub open spec fn fx_ok(x: int) -> bool {
    -(FX_MAX as int) <= x <= FX_MAX as int
}

/// A point with every component in range.
pub open spec fn point_ok(p: Point) -> bool {
    fx_ok(p.x as int) && fx_ok(p.y as int) && fx_ok(p.z as int)
}

/// A vector with every component in range.
pub open spec fn vector_ok(v: Vector) -> bool {
    fx_ok(v.x as int) && fx_ok(v.y as int) && fx_ok(v.z as int)
}

impl Ray {
    /// The point `origin + t * direction`, as a spec value.
    pub open spec fn position_s(self, t: int) -> Point {
        self.origin.plus_vec_s(self.direction.scale_s(t))
    }

    /// Build a ray.
    pub fn new(origin: Point, direction: Vector) -> (r: Ray)
        ensures
            r == (Ray { origin, direction }),
    {
        Ray { origin, direction }
    }

    /// The point at parameter `t` along the ray.
    pub fn position(&self, t: i64) -> (r: Point)
        ensures
            r == self.position_s(t as int),
    {
        self.origin.plus_vec(&self.direction.scale(t))
    }

    /// The ray mapped through a matrix: the origin as a point, the
    /// direction as a vector, without renormalizing.
    pub fn transform(&self, m: &Matrix) -> (r: Ray)
        ensures
            r.origin == map_point_s(*m, self.origin),
            r.direction == map_vector_s(*m, self.direction),
    {
        Ray { origin: m.mul_point(&self.origin), direction: m.mul_vector(&self.direction) }
    }
}

/// At parameter zero a ray stands exactly at its origin.
pub proof fn lemma_position_at_zero(r: Ray)
    requires
        point_ok(r.origin),
    ensures
        r.position_s(0) == r.origin,
{
    assert forall|d: int| #[trigger] fx_mul_s(d, 0) == 0 by {
        assert(sat64(d) * sat64(0) == 0) by (nonlinear_arith);
        vstd::arithmetic::div_mod::lemma_div_of0(65536);
    }
}

/// Position is linear along the ray: at a whole-number parameter `k`
/// (scaled by one) each component is exactly `origin + k * direction`,
/// provided nothing saturates.  Linearity in `k` follows at once.
pub proof fn lemma_position_linear(r: Ray, k: int)
    requires
        point_ok(r.origin),
        vector_ok(r.direction),
        fx_ok(k * FX_ONE),
        fx_ok(r.direction.x * k),
        fx_ok(r.direction.y * k),
        fx_ok(r.direction.z * k),
        fx_ok(r.origin.x + r.direction.x * k),
        fx_ok(r.origin.y + r.direction.y * k),
        fx_ok(r.origin.z + r.direction.z * k),
    ensures
        r.position_s(k * FX_ONE).x == r.origin.x + r.direction.x * k,
        r.position_s(k * FX_ONE).y == r.origin.y + r.direction.y * k,
        r.position_s(k * FX_ONE).z == r.origin.z + r.direction.z * k,
{
    lemma_scale_whole(r.direction.x as int, k);
    lemma_scale_whole(r.direction.y as int, k);
    lemma_scale_whole(r.direction.z as int, k);
}

/// Scaling by a whole number (a multiple of one) is exact: the
/// truncating product of `d` and `k * 2^16` is `d * k`.
pub proof fn lemma_scale_whole(d: int, k: int)
    requires
        fx_ok(d),
        fx_ok(k * FX_ONE),
        fx_ok(d * k),
    ensures
        fx_mul_s(d, k * FX_ONE) == d * k,
{
    assert(d * (k * 65536) == 65536 * (d * k)) by (nonlinear_arith);
    assert((65536 * (d * k)) / 65536 == d * k) by {
        vstd::arithmetic::div_mod::lemma_div_multiples_vanish(d * k, 65536);
    }
    assert(sat64(k * FX_ONE) == k * FX_ONE);
    assert(sat64(d) == d);
}

} // verus!
