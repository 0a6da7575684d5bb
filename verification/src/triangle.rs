//! Triangles, flat or smooth-shaded.
//!
//! A triangle stores one corner and the two edges leaving it.  It
//! inherits the identity transform and its material from the group
//! that holds it, so its intersection runs on the world-space ray.

use vstd::prelude::*;

use crate::bounds::{Bounds, max_s, min_s};
use crate::fx::{FX_EPS, FX_ONE, fx_add_s, fx_div, fx_div_s, fx_max, fx_min, fx_sub_s};
use crate::ray::Ray;
use crate::tuple::{Point, Vector, v_dot_s};

verus! {

/// How a triangle shades its normal.
#[derive(Clone, Copy, Debug, PartialEq, Eq, Structural)]
pub enum NormalKind {
    /// One face normal everywhere.
    Uniform(Vector),
    /// Per-corner normals, interpolated barycentrically.
    Smooth(Vector, Vector, Vector),
}

/// A triangle: a corner, the two edges leaving it, and its shading
/// normals.
#[derive(Clone, Copy, Debug, PartialEq, Eq, Structural)]
pub struct Triangle {
    pub p1: Point,
    pub e1: Vector,
    pub e2: Vector,
    pub normal: NormalKind,
}

/// The Moeller-Trumbore intersection: the parameter and barycentric
/// coordinates of the hit, if the ray meets the triangle above the
/// tolerance.  The barycentric quotients divide by the determinant
/// directly, keeping one truncation per coordinate.
pub open spec fn triangle_intersect_s(tri: Triangle, r: Ray) -> Option<(int, int, int)> {
    let dce2 = r.direction.cross_s(tri.e2);
    let det = v_dot_s(tri.e1, dce2);
    if det == 0 {
        Option::None
    } else {
        let p1o = Vector {
            x: fx_sub_s(r.origin.x as int, tri.p1.x as int) as i64,
            y: fx_sub_s(r.origin.y as int, tri.p1.y as int) as i64,
            z: fx_sub_s(r.origin.z as int, tri.p1.z as int) as i64,
        };
        let u = fx_div_s(v_dot_s(p1o, dce2), det as int);
        if u < 0 || u > FX_ONE as int {
            Option::None
        } else {
            let oce1 = p1o.cross_s(tri.e1);
            let v = fx_div_s(v_dot_s(r.direction, oce1), det as int);
            if v < 0 || fx_add_s(u, v) > FX_ONE as int {
                Option::None
            } else {
                let t = fx_div_s(v_dot_s(tri.e2, oce1), det as int);
                if t > FX_EPS {
                    Option::Some((t, u, v))
                } else {
                    Option::None
                }
            }
        }
    }
}

impl Triangle {
    /// Intersect a world-space ray with the triangle.
    pub fn intersect(&self, r: &Ray) -> (res: Option<(i64, i64, i64)>)
        ensures
            match (res, triangle_intersect_s(*self, *r)) {
                (Option::Some((t, u, v)), Option::Some(s)) => t as int == s.0 && u as int == s.1
                    && v as int == s.2 && t > FX_EPS && 0 <= u <= FX_ONE && 0 <= v
                    && fx_add_s(u as int, v as int) <= FX_ONE as int,
                (Option::None, Option::None) => true,
                _ => false,
            },
    {
        let dce2 = r.direction.cross(&self.e2);
        let det = self.e1.dot(&dce2);
        if det == 0 {
            return Option::None;
        }
        let p1o = r.origin.minus_point(&self.p1);
        let u = fx_div(p1o.dot(&dce2), det);
        if u < 0 || u > FX_ONE {
            return Option::None;
        }
        let oce1 = p1o.cross(&self.e1);
        let v = fx_div(r.direction.dot(&oce1), det);
        if v < 0 || crate::fx::fx_add(u, v) > FX_ONE {
            return Option::None;
        }
        let t = fx_div(self.e2.dot(&oce1), det);
        if t > FX_EPS {
            Option::Some((t, u, v))
        } else {
            Option::None
        }
    }

    /// The shading normal at barycentric coordinates `(u, v)`: the
    /// face normal, or the corner normals blended as
    /// `n2 u + n3 v + n1 (1 - u - v)`, normalized.
    pub open spec fn normal_at_s(self, u: int, v: int) -> Vector {
        match self.normal {
            NormalKind::Uniform(n) => n,
            NormalKind::Smooth(n1, n2, n3) => {
                let w = fx_sub_s(fx_sub_s(FX_ONE as int, u), v);
                n2.scale_s(u).plus_s(n3.scale_s(v)).plus_s(n1.scale_s(w)).normalize_s()
            },
        }
    }

    /// The shading normal at barycentric coordinates `(u, v)`.
    pub fn normal_at(&self, u: i64, v: i64) -> (res: Vector)
        ensures
            res == self.normal_at_s(u as int, v as int),
    {
        match self.normal {
            NormalKind::Uniform(n) => n,
            NormalKind::Smooth(n1, n2, n3) => {
                let w = crate::fx::fx_sub(crate::fx::fx_sub(FX_ONE, u), v);
                n2.scale(u).plus(&n3.scale(v)).plus(&n1.scale(w)).normalize()
            },
        }
    }

    /// The component-wise envelope of the three corners.
    pub open spec fn bounds_s(self) -> Bounds {
        let p2 = self.p1.plus_vec_s(self.e1);
        let p3 = self.p1.plus_vec_s(self.e2);
        Bounds {
            min: Point {
                x: min_s(min_s(self.p1.x as int, p2.x as int), p3.x as int) as i64,
                y: min_s(min_s(self.p1.y as int, p2.y as int), p3.y as int) as i64,
                z: min_s(min_s(self.p1.z as int, p2.z as int), p3.z as int) as i64,
            },
            max: Point {
                x: max_s(max_s(self.p1.x as int, p2.x as int), p3.x as int) as i64,
                y: max_s(max_s(self.p1.y as int, p2.y as int), p3.y as int) as i64,
                z: max_s(max_s(self.p1.z as int, p2.z as int), p3.z as int) as i64,
            },
        }
    }

    /// The bounds of the triangle.
    pub fn bounds(&self) -> (res: Bounds)
        ensures
            res == self.bounds_s(),
    {
        let p2 = self.p1.plus_vec(&self.e1);
        let p3 = self.p1.plus_vec(&self.e2);
        Bounds {
            min: Point {
                x: fx_min(fx_min(self.p1.x, p2.x), p3.x),
                y: fx_min(fx_min(self.p1.y, p2.y), p3.y),
                z: fx_min(fx_min(self.p1.z, p2.z), p3.z),
            },
            max: Point {
                x: fx_max(fx_max(self.p1.x, p2.x), p3.x),
                y: fx_max(fx_max(self.p1.y, p2.y), p3.y),
                z: fx_max(fx_max(self.p1.z, p2.z), p3.z),
            },
        }
    }
}

/// The triangle a fan makes at position `k` of a polygon: the first
/// point is the shared corner, and corners `k` and `k + 1` close the
/// triangle.  When all three corners carry normals the triangle
/// shades smoothly; otherwise it takes the face normal of its edges.
pub open spec fn fan_triangle_s(pts: Seq<(Point, Option<Vector>)>, k: int) -> Triangle {
    let p1 = pts[0].0;
    let e1 = pts[k].0.minus_point_s(p1);
    let e2 = pts[k + 1].0.minus_point_s(p1);
    let normal = match (pts[0].1, pts[k].1, pts[k + 1].1) {
        (Option::Some(n1), Option::Some(n2), Option::Some(n3)) => NormalKind::Smooth(n1, n2, n3),
        _ => NormalKind::Uniform(e1.cross_s(e2).normalize_s()),
    };
    Triangle { p1, e1, e2, normal }
}

/// Fan a polygon into triangles around its first corner: corners
/// `(0, k, k + 1)` for every `k` from one on.
pub fn triangle_fan(pts: &Vec<(Point, Option<Vector>)>) -> (res: Vec<Triangle>)
    requires
        pts.len() >= 3,
    ensures
        res.len() == pts.len() - 2,
        forall|k: int| 0 <= k < res.len() ==> (#[trigger] res[k]) == fan_triangle_s(pts@, k + 1),
{
    let mut res: Vec<Triangle> = Vec::new();
    let mut k: usize = 1;
    while k < pts.len() - 1
        invariant
            1 <= k <= pts.len() - 1,
            pts.len() >= 3,
            res.len() == k - 1,
            forall|j: int| 0 <= j < res.len() ==> (#[trigger] res[j]) == fan_triangle_s(pts@, j + 1),
        decreases pts.len() - k,
    {
        let (p1, n1) = *pts.get(0).unwrap();
        let (pa, n2) = *pts.get(k).unwrap();
        let (pb, n3) = *pts.get(k + 1).unwrap();
        let e1 = pa.minus_point(&p1);
        let e2 = pb.minus_point(&p1);
        let normal = match (n1, n2, n3) {
            (Option::Some(v1), Option::Some(v2), Option::Some(v3)) => NormalKind::Smooth(
                v1,
                v2,
                v3,
            ),
            _ => NormalKind::Uniform(e1.cross(&e2).normalize()),
        };
        res.push(Triangle { p1, e1, e2, normal });
        k = k + 1;
    }
    res
}

} // verus!
