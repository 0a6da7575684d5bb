//! Axis-aligned bounding boxes.
//!
//! A box is a pair of corner points.  Boxes are transformed by mapping
//! all eight corners and taking the component-wise envelope; the slab
//! test against a ray relies on saturating division, so a vanishing
//! direction component contributes the whole axis, as the original
//! infinity arithmetic did.

use vstd::prelude::*;

use crate::fx::{FX_EPS, FX_MAX, fx_div, fx_div_s, fx_max, fx_min, fx_sub, fx_sub_s};
use crate::matrix::{Matrix, map_point_s};
use crate::ray::Ray;
use crate::tuple::Point;

verus! {

/// An axis-aligned box between two corner points.
#[derive(Clone, Copy, Debug, PartialEq, Eq, Structural)]
pub struct Bounds {
    pub min: Point,
    pub max: Point,
}

/// The empty box: every reduction with it yields the other operand.
pub open spec fn no_bounds_s() -> Bounds {
    Bounds {
        min: Point { x: FX_MAX, y: FX_MAX, z: FX_MAX },
        max: Point {
            x: (-(FX_MAX as int)) as i64,
            y: (-(FX_MAX as int)) as i64,
            z: (-(FX_MAX as int)) as i64,
        },
    }
}

/// The empty box.
pub fn no_bounds() -> (r: Bounds)
    ensures
        r == no_bounds_s(),
{
    Bounds {
        min: Point { x: FX_MAX, y: FX_MAX, z: FX_MAX },
        max: Point { x: -FX_MAX, y: -FX_MAX, z: -FX_MAX },
    }
}

/// The smaller of two scalars.
pub open spec fn min_s(a: int, b: int) -> int {
    if a <= b {
        a
    } else {
        b
    }
}

/// The larger of two scalars.
pub open spec fn max_s(a: int, b: int) -> int {
    if a >= b {
        a
    } else {
        b
    }
}

/// The envelope of two boxes, as a spec value.
pub open spec fn reduce_s(a: Bounds, b: Bounds) -> Bounds {
    Bounds {
        min: Point {
            x: min_s(a.min.x as int, b.min.x as int) as i64,
            y: min_s(a.min.y as int, b.min.y as int) as i64,
            z: min_s(a.min.z as int, b.min.z as int) as i64,
        },
        max: Point {
            x: max_s(a.max.x as int, b.max.x as int) as i64,
            y: max_s(a.max.y as int, b.max.y as int) as i64,
            z: max_s(a.max.z as int, b.max.z as int) as i64,
        },
    }
}

/// The envelope of two boxes.
pub fn bounds_reducer(a: &Bounds, b: &Bounds) -> (r: Bounds)
    ensures
        r == reduce_s(*a, *b),
{
    Bounds {
        min: Point {
            x: fx_min(a.min.x, b.min.x),
            y: fx_min(a.min.y, b.min.y),
            z: fx_min(a.min.z, b.min.z),
        },
        max: Point {
            x: fx_max(a.max.x, b.max.x),
            y: fx_max(a.max.y, b.max.y),
            z: fx_max(a.max.z, b.max.z),
        },
    }
}

/// A box holding a single point.
pub open spec fn single_s(p: Point) -> Bounds {
    Bounds { min: p, max: p }
}

/// The envelope of the eight transformed corners of a box.
pub open spec fn transform_bounds_s(b: Bounds, m: Matrix) -> Bounds {
    let c0 = map_point_s(m, Point { x: b.min.x, y: b.min.y, z: b.min.z });
    let c1 = map_point_s(m, Point { x: b.min.x, y: b.min.y, z: b.max.z });
    let c2 = map_point_s(m, Point { x: b.min.x, y: b.max.y, z: b.min.z });
    let c3 = map_point_s(m, Point { x: b.min.x, y: b.max.y, z: b.max.z });
    let c4 = map_point_s(m, Point { x: b.max.x, y: b.min.y, z: b.min.z });
    let c5 = map_point_s(m, Point { x: b.max.x, y: b.min.y, z: b.max.z });
    let c6 = map_point_s(m, Point { x: b.max.x, y: b.max.y, z: b.min.z });
    let c7 = map_point_s(m, Point { x: b.max.x, y: b.max.y, z: b.max.z });
    reduce_s(
        reduce_s(
            reduce_s(
                reduce_s(
                    reduce_s(
                        reduce_s(reduce_s(reduce_s(no_bounds_s(), single_s(c0)), single_s(c1)), single_s(c2)),
                        single_s(c3),
                    ),
                    single_s(c4),
                ),
                single_s(c5),
            ),
            single_s(c6),
        ),
        single_s(c7),
    )
}

/// Transform a box: map all eight corners and take their envelope.
pub fn transform_bounds(b: &Bounds, m: &Matrix) -> (r: Bounds)
    ensures
        r == transform_bounds_s(*b, *m),
{
    let c0 = m.mul_point(&Point { x: b.min.x, y: b.min.y, z: b.min.z });
    let c1 = m.mul_point(&Point { x: b.min.x, y: b.min.y, z: b.max.z });
    let c2 = m.mul_point(&Point { x: b.min.x, y: b.max.y, z: b.min.z });
    let c3 = m.mul_point(&Point { x: b.min.x, y: b.max.y, z: b.max.z });
    let c4 = m.mul_point(&Point { x: b.max.x, y: b.min.y, z: b.min.z });
    let c5 = m.mul_point(&Point { x: b.max.x, y: b.min.y, z: b.max.z });
    let c6 = m.mul_point(&Point { x: b.max.x, y: b.max.y, z: b.min.z });
    let c7 = m.mul_point(&Point { x: b.max.x, y: b.max.y, z: b.max.z });
    let mut acc = no_bounds();
    acc = bounds_reducer(&acc, &Bounds { min: c0, max: c0 });
    acc = bounds_reducer(&acc, &Bounds { min: c1, max: c1 });
    acc = bounds_reducer(&acc, &Bounds { min: c2, max: c2 });
    acc = bounds_reducer(&acc, &Bounds { min: c3, max: c3 });
    acc = bounds_reducer(&acc, &Bounds { min: c4, max: c4 });
    acc = bounds_reducer(&acc, &Bounds { min: c5, max: c5 });
    acc = bounds_reducer(&acc, &Bounds { min: c6, max: c6 });
    acc = bounds_reducer(&acc, &Bounds { min: c7, max: c7 });
    acc
}

/// The entry and exit parameters of a ray against one slab, ordered.
/// A vanishing direction component saturates the quotients to the
/// signed infinities, so the slab contributes the whole axis.
pub open spec fn check_axis_s(lo: int, hi: int, o: int, d: int) -> (int, int) {
    let ta = fx_div_s(fx_sub_s(lo, o), d);
    let tb = fx_div_s(fx_sub_s(hi, o), d);
    if ta > tb {
        (tb, ta)
    } else {
        (ta, tb)
    }
}

/// The entry and exit parameters of a ray against one slab.
pub fn check_axis(lo: i64, hi: i64, o: i64, d: i64) -> (r: (i64, i64))
    ensures
        (r.0 as int, r.1 as int) == check_axis_s(lo as int, hi as int, o as int, d as int),
        r.0 <= r.1,
{
    let ta = fx_div(fx_sub(lo, o), d);
    let tb = fx_div(fx_sub(hi, o), d);
    if ta > tb {
        (tb, ta)
    } else {
        (ta, tb)
    }
}

/// The parameter at which a ray meets a box, if it does: the largest
/// slab entry if it lies in front of the ray, else the smallest slab
/// exit, else nothing.
pub open spec fn bounds_hit_s(b: Bounds, r: Ray) -> Option<int> {
    let tx = check_axis_s(b.min.x as int, b.max.x as int, r.origin.x as int, r.direction.x as int);
    let ty = check_axis_s(b.min.y as int, b.max.y as int, r.origin.y as int, r.direction.y as int);
    let tz = check_axis_s(b.min.z as int, b.max.z as int, r.origin.z as int, r.direction.z as int);
    let tmin = max_s(max_s(tx.0, ty.0), tz.0);
    let tmax = min_s(min_s(tx.1, ty.1), tz.1);
    if tmin > tmax {
        Option::None
    } else if tmin > FX_EPS {
        Option::Some(tmin)
    } else if tmax > FX_EPS {
        Option::Some(tmax)
    } else {
        Option::None
    }
}

/// The parameter at which a ray meets a box, if it does.
pub fn bounds_hit(b: &Bounds, r: &Ray) -> (res: Option<i64>)
    ensures
        match (res, bounds_hit_s(*b, *r)) {
            (Option::Some(t), Option::Some(ts)) => t as int == ts,
            (Option::None, Option::None) => true,
            _ => false,
        },
{
    let tx = check_axis(b.min.x, b.max.x, r.origin.x, r.direction.x);
    let ty = check_axis(b.min.y, b.max.y, r.origin.y, r.direction.y);
    let tz = check_axis(b.min.z, b.max.z, r.origin.z, r.direction.z);
    let tmin = fx_max(fx_max(tx.0, ty.0), tz.0);
    let tmax = fx_min(fx_min(tx.1, ty.1), tz.1);
    if tmin > tmax {
        Option::None
    } else if tmin > FX_EPS {
        Option::Some(tmin)
    } else if tmax > FX_EPS {
        Option::Some(tmax)
    } else {
        Option::None
    }
}

} // verus!
