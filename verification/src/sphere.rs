//! The unit sphere at the origin.

use vstd::prelude::*;

use crate::fx::{FX_EPS, FX_ONE, fx_add, fx_add_s, fx_div, fx_div_s, fx_mul, fx_mul_s, fx_neg, fx_neg_s, fx_sqrt, fx_sqrt_s, fx_sub, fx_sub_s};
use crate::ray::Ray;
use crate::tuple::{Point, Vector, v_dot_s};

verus! {

/// The parameter at which a ray meets the unit sphere, if it does:
/// the quadratic `|o + t d|^2 = 1` is solved and the smaller root
/// above the tolerance is preferred, then the larger, else nothing.
pub open spec fn sphere_intersect_s(r: Ray) -> Option<int> {
    let o = Vector { x: r.origin.x, y: r.origin.y, z: r.origin.z };
    let d = r.direction;
    let a = v_dot_s(d, d);
    let b = fx_add_s(v_dot_s(d, o), v_dot_s(d, o));
    let c = fx_sub_s(v_dot_s(o, o), FX_ONE as int);
    let disc = fx_sub_s(fx_mul_s(b, b), fx_mul_s(fx_mul_s(4 * (FX_ONE as int), a), c));
    if disc < 0 {
        Option::None
    } else {
        let sq = fx_sqrt_s(disc);
        let two_a = fx_add_s(a, a);
        let ta = fx_div_s(fx_sub_s(fx_neg_s(b), sq), two_a);
        let tb = fx_div_s(fx_add_s(fx_neg_s(b), sq), two_a);
        let t1 = if ta > tb { tb } else { ta };
        let t2 = if ta > tb { ta } else { tb };
        if t1 > FX_EPS {
            Option::Some(t1)
        } else if t2 > FX_EPS {
            Option::Some(t2)
        } else {
            Option::None
        }
    }
}

/// Intersect a ray, already in object space, with the unit sphere.
pub fn sphere_intersect(r: &Ray) -> (res: Option<i64>)
    ensures
        match (res, sphere_intersect_s(*r)) {
            (Option::Some(t), Option::Some(ts)) => t as int == ts && t > FX_EPS,
            (Option::None, Option::None) => true,
            _ => false,
        },
{
    let o = r.origin.as_vector();
    let d = r.direction;
    let a = d.dot(&d);
    let db = d.dot(&o);
    let b = fx_add(db, db);
    let c = fx_sub(o.dot(&o), FX_ONE);
    let disc = fx_sub(fx_mul(b, b), fx_mul(fx_mul(4 * FX_ONE, a), c));
    if disc < 0 {
        Option::None
    } else {
        let sq = fx_sqrt(disc);
        let two_a = fx_add(a, a);
        let ta = fx_div(fx_sub(fx_neg(b), sq), two_a);
        let tb = fx_div(fx_add(fx_neg(b), sq), two_a);
        let (t1, t2) = if ta > tb {
            (tb, ta)
        } else {
            (ta, tb)
        };
        if t1 > FX_EPS {
            Option::Some(t1)
        } else if t2 > FX_EPS {
            Option::Some(t2)
        } else {
            Option::None
        }
    }
}

/// The local normal of the unit sphere: the hit point read as a
/// vector from the origin.
pub fn sphere_normal(p: &Point) -> (res: Vector)
    ensures
        res == (Vector { x: p.x, y: p.y, z: p.z }),
{
    Vector { x: p.x, y: p.y, z: p.z }
}

} // verus!
