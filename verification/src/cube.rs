//! The axis-aligned cube between -1 and 1.

use vstd::prelude::*;

use crate::bounds::{check_axis, check_axis_s, max_s, min_s};
use crate::fx::{FX_EPS, FX_ONE, fx_max, fx_min, sat64};
use crate::ray::Ray;
use crate::tuple::{Point, Vector};

verus! {

/// The parameter at which a ray meets the unit cube, if it does: the
/// three slab intervals are intersected; the box is missed when the
/// entry lies behind the exit, else the smallest parameter above the
/// tolerance is taken.
pub open spec fn cube_intersect_s(r: Ray) -> Option<int> {
    let tx = check_axis_s(-(FX_ONE as int), FX_ONE as int, r.origin.x as int, r.direction.x as int);
    let ty = check_axis_s(-(FX_ONE as int), FX_ONE as int, r.origin.y as int, r.direction.y as int);
    let tz = check_axis_s(-(FX_ONE as int), FX_ONE as int, r.origin.z as int, r.direction.z as int);
    let tmin = max_s(max_s(tx.0, ty.0), tz.0);
    let tmax = min_s(min_s(tx.1, ty.1), tz.1);
    if tmin > tmax {
        Option::None
    } else if tmin > FX_EPS {
        Option::Some(tmin)
    } else if tmax > FX_EPS {
        Option::Some(tmax)
    } else {
        Option::None
    }
}

/// Intersect a ray, already in object space, with the unit cube.
pub fn cube_intersect(r: &Ray) -> (res: Option<i64>)
    ensures
        match (res, cube_intersect_s(*r)) {
            (Option::Some(t), Option::Some(ts)) => t as int == ts && t > FX_EPS,
            (Option::None, Option::None) => true,
            _ => false,
        },
{
    let tx = check_axis(-FX_ONE, FX_ONE, r.origin.x, r.direction.x);
    let ty = check_axis(-FX_ONE, FX_ONE, r.origin.y, r.direction.y);
    let tz = check_axis(-FX_ONE, FX_ONE, r.origin.z, r.direction.z);
    let tmin = fx_max(fx_max(tx.0, ty.0), tz.0);
    let tmax = fx_min(fx_min(tx.1, ty.1), tz.1);
    if tmin > tmax {
        Option::None
    } else if tmin > FX_EPS {
        Option::Some(tmin)
    } else if tmax > FX_EPS {
        Option::Some(tmax)
    } else {
        Option::None
    }
}

/// The absolute value of a clamped scalar.
pub open spec fn abs_s(x: int) -> int {
    if sat64(x) >= 0 {
        sat64(x)
    } else {
        -sat64(x)
    }
}

/// The local normal of the cube: the axis of the largest component
/// magnitude, ties resolved in favour of x, then y.
pub open spec fn cube_normal_s(p: Point) -> Vector {
    if abs_s(p.x as int) >= abs_s(p.y as int) {
        if abs_s(p.x as int) >= abs_s(p.z as int) {
            Vector { x: p.x, y: 0, z: 0 }
        } else {
            Vector { x: 0, y: 0, z: p.z }
        }
    } else if abs_s(p.y as int) >= abs_s(p.z as int) {
        Vector { x: 0, y: p.y, z: 0 }
    } else {
        Vector { x: 0, y: 0, z: p.z }
    }
}

/// The local normal of the cube.
pub fn cube_normal(p: &Point) -> (res: Vector)
    ensures
        res == cube_normal_s(*p),
{
    let ax = crate::fx::fx_abs(p.x);
    let ay = crate::fx::fx_abs(p.y);
    let az = crate::fx::fx_abs(p.z);
    if ax >= ay {
        if ax >= az {
            Vector { x: p.x, y: 0, z: 0 }
        } else {
            Vector { x: 0, y: 0, z: p.z }
        }
    } else if ay >= az {
        Vector { x: 0, y: p.y, z: 0 }
    } else {
        Vector { x: 0, y: 0, z: p.z }
    }
}

} // verus!
