//! Procedural fields sampled in object space.
//!
//! A mapping is a closed sum over uniform, striped, checkered,
//! gradient and ringed fields, one flavour over scalars and one over
//! colors.  Each patterned variant carries its own transform and is
//! sampled at the pattern point obtained by that transform's inverse.
//! The floor of a coordinate is stabilized with a small epsilon before
//! the positive-wrapped index is taken.

use vstd::prelude::*;

use crate::color::Color;
use crate::fx::{FX_EPS, FX_ONE, fx_add, fx_add_s, fx_floor, fx_floor_s, fx_mul, fx_mul_s, fx_sqrt, fx_sqrt_s, fx_sub, fx_sub_s, sat64};
use crate::matrix::map_point_s;
use crate::transform::Transform;
use crate::tuple::Point;

verus! {

/// A constant scalar field.
#[derive(Clone, Copy, Debug, PartialEq, Eq, Structural)]
pub struct UniformMapping {
    pub value: i64,
}

/// A constant color field.
#[derive(Clone, Copy, Debug, PartialEq, Eq, Structural)]
pub struct UniformPattern {
    pub value: Color,
}

/// The positive-wrapped stripe index: the floor of `x` (nudged by the
/// epsilon) modulo the number of values.
pub open spec fn stripe_index_s(x: int, n: int) -> int {
    fx_floor_s(fx_add_s(x, FX_EPS as int)) % n
}

/// The stripe index of a pattern point.
pub fn stripe_index(x: i64, n: usize) -> (res: usize)
    requires
        1 <= n < 0x8000_0000_0000_0000,
    ensures
        res == stripe_index_s(x as int, n as int),
        res < n,
{
    let f = fx_floor(fx_add(x, FX_EPS));
    proof {
        vstd::arithmetic::div_mod::lemma_mod_bound(f as int, n as int);
    }
    let idx = f.checked_rem_euclid(n as i64).unwrap();
    idx as usize
}

/// The checkers index: the floors of the three coordinates are summed
/// and wrapped.
pub open spec fn checkers_index_s(p: Point, n: int) -> int {
    (fx_floor_s(fx_add_s(p.x as int, FX_EPS as int)) + fx_floor_s(
        fx_add_s(p.y as int, FX_EPS as int),
    ) + fx_floor_s(fx_add_s(p.z as int, FX_EPS as int))) % n
}

/// The checkers index of a pattern point.
pub fn checkers_index(p: &Point, n: usize) -> (res: usize)
    requires
        1 <= n < 0x8000_0000_0000_0000,
    ensures
        res == checkers_index_s(*p, n as int),
        res < n,
{
    let fxx = fx_floor(fx_add(p.x, FX_EPS));
    let fy = fx_floor(fx_add(p.y, FX_EPS));
    let fz = fx_floor(fx_add(p.z, FX_EPS));
    proof {
        vstd::arithmetic::div_mod::lemma_mod_bound(fxx as int + fy as int + fz as int, n as int);
    }
    let idx = (fxx + fy + fz).checked_rem_euclid(n as i64).unwrap();
    idx as usize
}

/// The ring index: the floor of the radial distance in the xz plane,
/// wrapped.
pub open spec fn ring_index_s(p: Point, n: int) -> int {
    let d = fx_sqrt_s(
        fx_add_s(fx_mul_s(p.x as int, p.x as int), fx_mul_s(p.z as int, p.z as int)),
    );
    fx_floor_s(d) % n
}

/// The ring index of a pattern point.
pub fn ring_index(p: &Point, n: usize) -> (res: usize)
    requires
        1 <= n < 0x8000_0000_0000_0000,
    ensures
        res == ring_index_s(*p, n as int),
        res < n,
{
    let d = fx_sqrt(fx_add(fx_mul(p.x, p.x), fx_mul(p.z, p.z)));
    let f = fx_floor(d);
    proof {
        vstd::arithmetic::div_mod::lemma_mod_bound(f as int, n as int);
    }
    let idx = f.checked_rem_euclid(n as i64).unwrap();
    idx as usize
}

/// The gradient fraction: the position of `x` within its unit cell,
/// with the floor nudged downward by the epsilon.
pub open spec fn gradient_fraction_s(x: int) -> int {
    fx_sub_s(x, sat64(fx_floor_s(fx_sub_s(x, FX_EPS as int)) * (FX_ONE as int)))
}

/// The gradient fraction of a coordinate.
pub fn gradient_fraction(x: i64) -> (res: i64)
    ensures
        res == gradient_fraction_s(x as int),
{
    let f = fx_floor(fx_sub(x, FX_EPS));
    let scaled = crate::tuple::sat_wide((f as i128) * (FX_ONE as i128));
    fx_sub(x, scaled)
}

/// A scalar field over object space.
#[derive(Clone, Debug)]
pub enum ScalarMapping {
    /// The same value everywhere.
    Uniform(UniformMapping),
    /// Values alternating along x.
    Striped(Vec<i64>, Transform),
    /// Values alternating in all three axes.
    Checkered(Vec<i64>, Transform),
    /// A blend from the first value to the second along x.
    Gradient(i64, i64, Transform),
    /// Values alternating with the radial distance in xz.
    Ringed(Vec<i64>, Transform),
}

/// A color field over object space.
#[derive(Clone, Debug)]
pub enum ColorMapping {
    /// The same color everywhere.
    Uniform(UniformPattern),
    /// Colors alternating along x.
    Striped(Vec<Color>, Transform),
    /// Colors alternating in all three axes.
    Checkered(Vec<Color>, Transform),
    /// A blend from the first color to the second along x.
    Gradient(Color, Color, Transform),
    /// Colors alternating with the radial distance in xz.
    Ringed(Vec<Color>, Transform),
}

impl ScalarMapping {
    /// A mapping with at least one value to pick from.
    pub open spec fn wf(self) -> bool {
        match self {
            ScalarMapping::Uniform(_) => true,
            ScalarMapping::Striped(vs, _) => 1 <= vs.len() < 0x8000_0000_0000_0000,
            ScalarMapping::Checkered(vs, _) => 1 <= vs.len() < 0x8000_0000_0000_0000,
            ScalarMapping::Gradient(_, _, _) => true,
            ScalarMapping::Ringed(vs, _) => 1 <= vs.len() < 0x8000_0000_0000_0000,
        }
    }

    /// The value of the field at a point of object space: the pattern
    /// transform's inverse is applied first.
    pub open spec fn at_object_s(self, p: Point) -> int {
        match self {
            ScalarMapping::Uniform(u) => u.value as int,
            ScalarMapping::Striped(vs, t) => vs[stripe_index_s(
                map_point_s(t.inv, p).x as int,
                vs.len() as int,
            )] as int,
            ScalarMapping::Checkered(vs, t) => vs[checkers_index_s(
                map_point_s(t.inv, p),
                vs.len() as int,
            )] as int,
            ScalarMapping::Gradient(a, b, t) => fx_add_s(
                a as int,
                fx_mul_s(fx_sub_s(b as int, a as int), gradient_fraction_s(map_point_s(t.inv, p).x as int)),
            ),
            ScalarMapping::Ringed(vs, t) => vs[ring_index_s(
                map_point_s(t.inv, p),
                vs.len() as int,
            )] as int,
        }
    }

    /// Sample the field at a point of object space.
    pub fn at_object(&self, p: &Point) -> (res: i64)
        requires
            self.wf(),
        ensures
            res == self.at_object_s(*p),
    {
        match self {
            ScalarMapping::Uniform(u) => u.value,
            ScalarMapping::Striped(vs, t) => {
                let pp = t.inv_point(p);
                vs[stripe_index(pp.x, vs.len())]
            },
            ScalarMapping::Checkered(vs, t) => {
                let pp = t.inv_point(p);
                vs[checkers_index(&pp, vs.len())]
            },
            ScalarMapping::Gradient(a, b, t) => {
                let pp = t.inv_point(p);
                fx_add(*a, fx_mul(fx_sub(*b, *a), gradient_fraction(pp.x)))
            },
            ScalarMapping::Ringed(vs, t) => {
                let pp = t.inv_point(p);
                vs[ring_index(&pp, vs.len())]
            },
        }
    }

    /// A constant field.
    pub fn uniform(value: i64) -> (res: ScalarMapping)
        ensures
            res == ScalarMapping::Uniform(UniformMapping { value }),
    {
        ScalarMapping::Uniform(UniformMapping { value })
    }
}

impl ColorMapping {
    /// A mapping with at least one color to pick from.
    pub open spec fn wf(self) -> bool {
        match self {
            ColorMapping::Uniform(_) => true,
            ColorMapping::Striped(vs, _) => 1 <= vs.len() < 0x8000_0000_0000_0000,
            ColorMapping::Checkered(vs, _) => 1 <= vs.len() < 0x8000_0000_0000_0000,
            ColorMapping::Gradient(_, _, _) => true,
            ColorMapping::Ringed(vs, _) => 1 <= vs.len() < 0x8000_0000_0000_0000,
        }
    }

    /// The color of the field at a point of object space.
    pub open spec fn at_object_s(self, p: Point) -> Color {
        match self {
            ColorMapping::Uniform(u) => u.value,
            ColorMapping::Striped(vs, t) => vs[stripe_index_s(
                map_point_s(t.inv, p).x as int,
                vs.len() as int,
            )],
            ColorMapping::Checkered(vs, t) => vs[checkers_index_s(
                map_point_s(t.inv, p),
                vs.len() as int,
            )],
            ColorMapping::Gradient(a, b, t) => a.plus_s(
                b.minus_s(a).scale_s(gradient_fraction_s(map_point_s(t.inv, p).x as int)),
            ),
            ColorMapping::Ringed(vs, t) => vs[ring_index_s(
                map_point_s(t.inv, p),
                vs.len() as int,
            )],
        }
    }

    /// Sample the field at a point of object space.
    pub fn at_object(&self, p: &Point) -> (res: Color)
        requires
            self.wf(),
        ensures
            res == self.at_object_s(*p),
    {
        match self {
            ColorMapping::Uniform(u) => u.value,
            ColorMapping::Striped(vs, t) => {
                let pp = t.inv_point(p);
                vs[stripe_index(pp.x, vs.len())]
            },
            ColorMapping::Checkered(vs, t) => {
                let pp = t.inv_point(p);
                vs[checkers_index(&pp, vs.len())]
            },
            ColorMapping::Gradient(a, b, t) => {
                let pp = t.inv_point(p);
                a.plus(&b.minus(a).scale(gradient_fraction(pp.x)))
            },
            ColorMapping::Ringed(vs, t) => {
                let pp = t.inv_point(p);
                vs[ring_index(&pp, vs.len())]
            },
        }
    }

    /// A constant field.
    pub fn uniform(value: Color) -> (res: ColorMapping)
        ensures
            res == ColorMapping::Uniform(UniformPattern { value }),
    {
        ColorMapping::Uniform(UniformPattern { value })
    }
}

} // verus!
