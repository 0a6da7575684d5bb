//! The infinite plane `y = 0`.

use vstd::prelude::*;

use crate::bounds::Bounds;
use crate::fx::{FX_EPS, FX_ONE, fx_div, fx_div_s, fx_neg, fx_neg_s};
use crate::ray::Ray;
use crate::tuple::{Point, Vector};

verus! {

/// The finite slab standing in for the infinite plane: the bounding
/// hierarchy needs finite boxes, so the plane is inflated to ten
/// billion units in x and z and the tolerance in y.
pub const PLANE_EXTENT: i64 = 655360000000000;

/// The parameter at which a ray meets the plane `y = 0`, if it does:
/// a ray parallel to the plane misses, otherwise `t = -o.y / d.y`,
/// accepted above the tolerance.
pub open spec fn plane_intersect_s(r: Ray) -> Option<int> {
    if r.direction.y == 0 {
        Option::None
    } else {
        let t = fx_div_s(fx_neg_s(r.origin.y as int), r.direction.y as int);
        if t > FX_EPS {
            Option::Some(t)
        } else {
            Option::None
        }
    }
}

/// Intersect a ray, already in object space, with the plane `y = 0`.
pub fn plane_intersect(r: &Ray) -> (res: Option<i64>)
    ensures
        match (res, plane_intersect_s(*r)) {
            (Option::Some(t), Option::Some(ts)) => t as int == ts && t > FX_EPS,
            (Option::None, Option::None) => true,
            _ => false,
        },
        r.direction.y == 0 ==> res.is_none(),
{
    if r.direction.y == 0 {
        Option::None
    } else {
        let t = fx_div(fx_neg(r.origin.y), r.direction.y);
        if t > FX_EPS {
            Option::Some(t)
        } else {
            Option::None
        }
    }
}

/// The local normal of the plane: straight up, everywhere.
pub fn plane_normal() -> (res: Vector)
    ensures
        res == (Vector { x: 0, y: FX_ONE, z: 0 }),
{
    Vector { x: 0, y: FX_ONE, z: 0 }
}

/// The finite bounds standing in for the plane.
pub fn plane_bounds() -> (res: Bounds)
    ensures
        res == (Bounds {
            min: Point {
                x: (-(PLANE_EXTENT as int)) as i64,
                y: (-(FX_EPS as int)) as i64,
                z: (-(PLANE_EXTENT as int)) as i64,
            },
            max: Point { x: PLANE_EXTENT, y: FX_EPS, z: PLANE_EXTENT },
        }),
{
    Bounds {
        min: Point { x: -PLANE_EXTENT, y: -FX_EPS, z: -PLANE_EXTENT },
        max: Point { x: PLANE_EXTENT, y: FX_EPS, z: PLANE_EXTENT },
    }
}

} // verus!
