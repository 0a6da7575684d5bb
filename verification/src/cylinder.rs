//! The unit-radius cylinder around the y axis, cut to y in [-1, 1],
//! with optionally closed caps.

use vstd::prelude::*;

use crate::fx::{FX_EPS, FX_ONE, fx_abs, fx_add, fx_add_s, fx_div, fx_div_s, fx_mul, fx_mul_s, fx_neg, fx_neg_s, fx_sqrt, fx_sqrt_s, fx_sub, fx_sub_s, sat64};
use crate::ray::Ray;
use crate::tuple::{Point, Vector};

verus! {

/// The absolute value of a clamped scalar.
pub open spec fn cyl_abs_s(x: int) -> int {
    if sat64(x) >= 0 {
        sat64(x)
    } else {
        -sat64(x)
    }
}

/// The y coordinate of the ray at parameter `t`.
pub open spec fn ray_y_at_s(r: Ray, t: int) -> int {
    fx_add_s(r.origin.y as int, fx_mul_s(t as int, r.direction.y as int))
}

/// Whether the ray at parameter `t` lies within the unit disc of the
/// caps: `x^2 + z^2 <= 1`.
pub open spec fn check_cap_s(r: Ray, t: int) -> bool {
    let x = fx_add_s(r.origin.x as int, fx_mul_s(t, r.direction.x as int));
    let z = fx_add_s(r.origin.z as int, fx_mul_s(t, r.direction.z as int));
    fx_add_s(fx_mul_s(x, x), fx_mul_s(z, z)) <= FX_ONE as int
}

fn check_cap(r: &Ray, t: i64) -> (res: bool)
    ensures
        res == check_cap_s(*r, t as int),
{
    let x = fx_add(r.origin.x, fx_mul(t, r.direction.x));
    let z = fx_add(r.origin.z, fx_mul(t, r.direction.z));
    fx_add(fx_mul(x, x), fx_mul(z, z)) <= FX_ONE
}

/// The parameter at which a ray meets the open side of the cylinder,
/// if it does: the quadratic in x and z is solved, and a root is
/// accepted only above the tolerance and with its y strictly inside
/// (-1, 1).
pub open spec fn cylinder_side_s(r: Ray) -> Option<int> {
    let a = fx_add_s(
        fx_mul_s(r.direction.x as int, r.direction.x as int),
        fx_mul_s(r.direction.z as int, r.direction.z as int),
    );
    if cyl_abs_s(a) < FX_EPS {
        Option::None
    } else {
        let b = fx_add_s(
            fx_add_s(
                fx_mul_s(r.origin.x as int, r.direction.x as int),
                fx_mul_s(r.origin.x as int, r.direction.x as int),
            ),
            fx_add_s(
                fx_mul_s(r.origin.z as int, r.direction.z as int),
                fx_mul_s(r.origin.z as int, r.direction.z as int),
            ),
        );
        let c = fx_sub_s(
            fx_add_s(
                fx_mul_s(r.origin.x as int, r.origin.x as int),
                fx_mul_s(r.origin.z as int, r.origin.z as int),
            ),
            FX_ONE as int,
        );
        let disc = fx_sub_s(fx_mul_s(b, b), fx_mul_s(fx_mul_s(4 * (FX_ONE as int), a), c));
        if disc < 0 {
            Option::None
        } else {
            let sq = fx_sqrt_s(disc);
            let two_a = fx_add_s(a, a);
            let ta = fx_div_s(fx_sub_s(fx_neg_s(b), sq), two_a);
            let tb = fx_div_s(fx_add_s(fx_neg_s(b), sq), two_a);
            let t1 = if tb < ta { tb } else { ta };
            let t2 = if tb < ta { ta } else { tb };
            let y1 = ray_y_at_s(r, t1);
            let y2 = ray_y_at_s(r, t2);
            if t1 > FX_EPS && -(FX_ONE as int) < y1 && y1 < FX_ONE as int {
                Option::Some(t1)
            } else if t2 > FX_EPS && -(FX_ONE as int) < y2 && y2 < FX_ONE as int {
                Option::Some(t2)
            } else {
                Option::None
            }
        }
    }
}

/// Intersect a ray with the open side of the cylinder.  Any accepted
/// hit has its y coordinate strictly inside the open interval.
pub fn cylinder_side(r: &Ray) -> (res: Option<i64>)
    ensures
        match (res, cylinder_side_s(*r)) {
            (Option::Some(t), Option::Some(ts)) => t as int == ts && t > FX_EPS
                && -(FX_ONE as int) < ray_y_at_s(*r, t as int) < FX_ONE as int,
            (Option::None, Option::None) => true,
            _ => false,
        },
{
    let a = fx_add(
        fx_mul(r.direction.x, r.direction.x),
        fx_mul(r.direction.z, r.direction.z),
    );
    if fx_abs(a) < FX_EPS {
        Option::None
    } else {
        let bx = fx_mul(r.origin.x, r.direction.x);
        let bz = fx_mul(r.origin.z, r.direction.z);
        let b = fx_add(fx_add(bx, bx), fx_add(bz, bz));
        let c = fx_sub(
            fx_add(fx_mul(r.origin.x, r.origin.x), fx_mul(r.origin.z, r.origin.z)),
            FX_ONE,
        );
        let disc = fx_sub(fx_mul(b, b), fx_mul(fx_mul(4 * FX_ONE, a), c));
        if disc < 0 {
            Option::None
        } else {
            let sq = fx_sqrt(disc);
            let two_a = fx_add(a, a);
            let ta = fx_div(fx_sub(fx_neg(b), sq), two_a);
            let tb = fx_div(fx_add(fx_neg(b), sq), two_a);
            let (t1, t2) = if tb < ta {
                (tb, ta)
            } else {
                (ta, tb)
            };
            let y1 = fx_add(r.origin.y, fx_mul(t1, r.direction.y));
            let y2 = fx_add(r.origin.y, fx_mul(t2, r.direction.y));
            if t1 > FX_EPS && -FX_ONE < y1 && y1 < FX_ONE {
                Option::Some(t1)
            } else if t2 > FX_EPS && -FX_ONE < y2 && y2 < FX_ONE {
                Option::Some(t2)
            } else {
                Option::None
            }
        }
    }
}

/// The parameter at which a ray meets one of the closed caps, if it
/// does: planes at y = -1 and y = 1, restricted to the unit disc.
pub open spec fn cylinder_caps_s(r: Ray, closed: bool) -> Option<int> {
    if !closed || cyl_abs_s(r.direction.y as int) <= FX_EPS {
        Option::None
    } else {
        let ta = fx_div_s(fx_sub_s(-(FX_ONE as int), r.origin.y as int), r.direction.y as int);
        let tb = fx_div_s(fx_sub_s(FX_ONE as int, r.origin.y as int), r.direction.y as int);
        let t1 = if tb < ta { tb } else { ta };
        let t2 = if tb < ta { ta } else { tb };
        if t1 > FX_EPS && check_cap_s(r, t1) {
            Option::Some(t1)
        } else if t2 > FX_EPS && check_cap_s(r, t2) {
            Option::Some(t2)
        } else {
            Option::None
        }
    }
}

/// Intersect a ray with the caps of a closed cylinder.
pub fn cylinder_caps(r: &Ray, closed: bool) -> (res: Option<i64>)
    ensures
        match (res, cylinder_caps_s(*r, closed)) {
            (Option::Some(t), Option::Some(ts)) => t as int == ts && t > FX_EPS,
            (Option::None, Option::None) => true,
            _ => false,
        },
        !closed ==> res.is_none(),
{
    if !closed {
        return Option::None;
    }
    if fx_abs(r.direction.y) <= FX_EPS {
        return Option::None;
    }
    let ta = fx_div(fx_sub(-FX_ONE, r.origin.y), r.direction.y);
    let tb = fx_div(fx_sub(FX_ONE, r.origin.y), r.direction.y);
    let (t1, t2) = if tb < ta {
        (tb, ta)
    } else {
        (ta, tb)
    };
    if t1 > FX_EPS && check_cap(r, t1) {
        Option::Some(t1)
    } else if t2 > FX_EPS && check_cap(r, t2) {
        Option::Some(t2)
    } else {
        Option::None
    }
}

/// The nearer of the side and cap hits.
pub open spec fn cylinder_intersect_s(r: Ray, closed: bool) -> Option<int> {
    let cap = cylinder_caps_s(r, closed);
    let side = cylinder_side_s(r);
    match (cap, side) {
        (Option::Some(t1), Option::Some(t2)) => if t1 < t2 {
            Option::Some(t1)
        } else {
            Option::Some(t2)
        },
        (Option::Some(t1), Option::None) => Option::Some(t1),
        (Option::None, Option::Some(t2)) => Option::Some(t2),
        (Option::None, Option::None) => Option::None,
    }
}

/// Intersect a ray, already in object space, with the cylinder.
pub fn cylinder_intersect(r: &Ray, closed: bool) -> (res: Option<i64>)
    ensures
        match (res, cylinder_intersect_s(*r, closed)) {
            (Option::Some(t), Option::Some(ts)) => t as int == ts && t > FX_EPS,
            (Option::None, Option::None) => true,
            _ => false,
        },
{
    let cap = cylinder_caps(r, closed);
    let side = cylinder_side(r);
    match (cap, side) {
        (Option::Some(t1), Option::Some(t2)) => if t1 < t2 {
            Option::Some(t1)
        } else {
            Option::Some(t2)
        },
        (Option::Some(t1), Option::None) => Option::Some(t1),
        (Option::None, Option::Some(t2)) => Option::Some(t2),
        (Option::None, Option::None) => Option::None,
    }
}

/// The local normal of the cylinder: straight up or down within the
/// tolerance of a cap when inside the unit disc, else the radial
/// vector normalized.
pub open spec fn cylinder_normal_s(p: Point) -> Vector {
    let dist = fx_add_s(fx_mul_s(p.x as int, p.x as int), fx_mul_s(p.z as int, p.z as int));
    if dist < FX_ONE as int && p.y as int >= FX_ONE as int - FX_EPS as int {
        Vector { x: 0, y: FX_ONE, z: 0 }
    } else if dist < FX_ONE as int && p.y as int <= -(FX_ONE as int) + FX_EPS as int {
        Vector { x: 0, y: (-(FX_ONE as int)) as i64, z: 0 }
    } else {
        (Vector { x: p.x, y: 0, z: p.z }).normalize_s()
    }
}

/// The local normal of the cylinder.
pub fn cylinder_normal(p: &Point) -> (res: Vector)
    ensures
        res == cylinder_normal_s(*p),
{
    let dist = fx_add(fx_mul(p.x, p.x), fx_mul(p.z, p.z));
    if dist < FX_ONE && p.y >= FX_ONE - FX_EPS {
        Vector { x: 0, y: FX_ONE, z: 0 }
    } else if dist < FX_ONE && p.y <= -FX_ONE + FX_EPS {
        Vector { x: 0, y: -FX_ONE, z: 0 }
    } else {
        (Vector { x: p.x, y: 0, z: p.z }).normalize()
    }
}

} // verus!
