//! Points and vectors: three-component fixed-point triples.
//!
//! Points and vectors are distinct types: a point minus a point is a
//! vector, a point plus a vector is a point, and transforms treat them
//! differently.  Every operation mirrors a `_s` spec function exactly.

use vstd::prelude::*;

use crate::fx::{FX_MAX, FX_ONE, fx_add, fx_add_s, fx_clamp, fx_div, fx_div_s, fx_mul, fx_mul_s, fx_neg, fx_neg_s, fx_sqrt, fx_sqrt_s, fx_sub, fx_sub_s, sat64};

verus! {

/// A direction in space.
#[derive(Clone, Copy, Debug, PartialEq, Eq, Structural)]
pub struct Vector {
    pub x: i64,
    pub y: i64,
    pub z: i64,
}

/// A location in space.
#[derive(Clone, Copy, Debug, PartialEq, Eq, Structural)]
pub struct Point {
    pub x: i64,
    pub y: i64,
    pub z: i64,
}

/// Build a vector from raw fixed-point components.
pub fn vector(x: i64, y: i64, z: i64) -> (r: Vector)
    ensures
        r == (Vector { x, y, z }),
{
    Vector { x, y, z }
}

/// Build a point from raw fixed-point components.
pub fn point(x: i64, y: i64, z: i64) -> (r: Point)
    ensures
        r == (Point { x, y, z }),
{
    Point { x, y, z }
}

/// The dot product of two vectors, with a single truncation step.
pub open spec fn v_dot_s(a: Vector, b: Vector) -> int {
    sat64(
        (sat64(a.x as int) * sat64(b.x as int) + sat64(a.y as int) * sat64(b.y as int) + sat64(
            a.z as int,
        ) * sat64(b.z as int)) / (FX_ONE as int),
    )
}

/// The magnitude of a vector.
pub open spec fn v_mag_s(a: Vector) -> int {
    fx_sqrt_s(v_dot_s(a, a))
}

impl Vector {
    /// Component-wise sum, as a spec value.
    pub open spec fn plus_s(self, o: Vector) -> Vector {
        Vector {
            x: fx_add_s(self.x as int, o.x as int) as i64,
            y: fx_add_s(self.y as int, o.y as int) as i64,
            z: fx_add_s(self.z as int, o.z as int) as i64,
        }
    }

    /// Component-wise difference, as a spec value.
    pub open spec fn minus_s(self, o: Vector) -> Vector {
        Vector {
            x: fx_sub_s(self.x as int, o.x as int) as i64,
            y: fx_sub_s(self.y as int, o.y as int) as i64,
            z: fx_sub_s(self.z as int, o.z as int) as i64,
        }
    }

    /// The opposite vector, as a spec value.
    pub open spec fn negate_s(self) -> Vector {
        Vector {
            x: fx_neg_s(self.x as int) as i64,
            y: fx_neg_s(self.y as int) as i64,
            z: fx_neg_s(self.z as int) as i64,
        }
    }

    /// The vector scaled by a scalar, as a spec value.
    pub open spec fn scale_s(self, s: int) -> Vector {
        Vector {
            x: fx_mul_s(self.x as int, s) as i64,
            y: fx_mul_s(self.y as int, s) as i64,
            z: fx_mul_s(self.z as int, s) as i64,
        }
    }

    /// The cross product, as a spec value.
    pub open spec fn cross_s(self, o: Vector) -> Vector {
        Vector {
            x: fx_sub_s(fx_mul_s(self.y as int, o.z as int), fx_mul_s(self.z as int, o.y as int)) as i64,
            y: fx_sub_s(fx_mul_s(self.z as int, o.x as int), fx_mul_s(self.x as int, o.z as int)) as i64,
            z: fx_sub_s(fx_mul_s(self.x as int, o.y as int), fx_mul_s(self.y as int, o.x as int)) as i64,
        }
    }

    /// The vector scaled to unit length, as a spec value; the zero
    /// vector stays zero.
    pub open spec fn normalize_s(self) -> Vector {
        Vector {
            x: fx_div_s(self.x as int, v_mag_s(self)) as i64,
            y: fx_div_s(self.y as int, v_mag_s(self)) as i64,
            z: fx_div_s(self.z as int, v_mag_s(self)) as i64,
        }
    }

    /// The reflection about a surface normal, as a spec value:
    /// `v - n * 2 * (v . n)`.
    pub open spec fn reflect_s(self, n: Vector) -> Vector {
        let k = fx_add_s(v_dot_s(self, n), v_dot_s(self, n));
        Vector {
            x: fx_sub_s(self.x as int, fx_mul_s(n.x as int, k)) as i64,
            y: fx_sub_s(self.y as int, fx_mul_s(n.y as int, k)) as i64,
            z: fx_sub_s(self.z as int, fx_mul_s(n.z as int, k)) as i64,
        }
    }

    /// Component-wise sum.
    pub fn plus(&self, o: &Vector) -> (r: Vector)
        ensures
            r == self.plus_s(*o),
    {
        Vector { x: fx_add(self.x, o.x), y: fx_add(self.y, o.y), z: fx_add(self.z, o.z) }
    }

    /// Component-wise difference.
    pub fn minus(&self, o: &Vector) -> (r: Vector)
        ensures
            r == self.minus_s(*o),
    {
        Vector { x: fx_sub(self.x, o.x), y: fx_sub(self.y, o.y), z: fx_sub(self.z, o.z) }
    }

    /// The opposite vector.
    pub fn negate(&self) -> (r: Vector)
        ensures
            r == self.negate_s(),
    {
        Vector { x: fx_neg(self.x), y: fx_neg(self.y), z: fx_neg(self.z) }
    }

    /// Multiplication by a scalar.
    pub fn scale(&self, s: i64) -> (r: Vector)
        ensures
            r == self.scale_s(s as int),
    {
        Vector { x: fx_mul(self.x, s), y: fx_mul(self.y, s), z: fx_mul(self.z, s) }
    }

    /// The dot product, truncated once after the exact wide sum.
    pub fn dot(&self, o: &Vector) -> (r: i64)
        ensures
            r == v_dot_s(*self, *o),
    {
        let ax = fx_clamp(self.x);
        let ay = fx_clamp(self.y);
        let az = fx_clamp(self.z);
        let bx = fx_clamp(o.x);
        let by = fx_clamp(o.y);
        let bz = fx_clamp(o.z);
        proof {
            lemma_wide_product_bounded(ax as int, bx as int);
            lemma_wide_product_bounded(ay as int, by as int);
            lemma_wide_product_bounded(az as int, bz as int);
        }
        let p: i128 = (ax as i128) * (bx as i128) + (ay as i128) * (by as i128) + (az as i128)
            * (bz as i128);
        let q = p.checked_div_euclid(FX_ONE as i128).unwrap();
        sat_wide(q)
    }

    /// The cross product.
    pub fn cross(&self, o: &Vector) -> (r: Vector)
        ensures
            r == self.cross_s(*o),
    {
        Vector {
            x: fx_sub(fx_mul(self.y, o.z), fx_mul(self.z, o.y)),
            y: fx_sub(fx_mul(self.z, o.x), fx_mul(self.x, o.z)),
            z: fx_sub(fx_mul(self.x, o.y), fx_mul(self.y, o.x)),
        }
    }

    /// The length of the vector.
    pub fn magnitude(&self) -> (r: i64)
        ensures
            r == v_mag_s(*self),
            r >= 0,
    {
        fx_sqrt(self.dot(self))
    }

    /// The vector scaled to unit length; the zero vector stays zero
    /// (its magnitude is zero and division by zero saturates, scaled
    /// back to zero).
    pub fn normalize(&self) -> (r: Vector)
        ensures
            r == self.normalize_s(),
    {
        let m = self.magnitude();
        Vector { x: fx_div(self.x, m), y: fx_div(self.y, m), z: fx_div(self.z, m) }
    }

    /// The reflection of the vector about a surface normal.
    pub fn reflect(&self, n: &Vector) -> (r: Vector)
        ensures
            r == self.reflect_s(*n),
    {
        let d = self.dot(n);
        let k = fx_add(d, d);
        Vector {
            x: fx_sub(self.x, fx_mul(n.x, k)),
            y: fx_sub(self.y, fx_mul(n.y, k)),
            z: fx_sub(self.z, fx_mul(n.z, k)),
        }
    }
}

impl Point {
    /// The point moved along a vector, as a spec value.
    pub open spec fn plus_vec_s(self, v: Vector) -> Point {
        Point {
            x: fx_add_s(self.x as int, v.x as int) as i64,
            y: fx_add_s(self.y as int, v.y as int) as i64,
            z: fx_add_s(self.z as int, v.z as int) as i64,
        }
    }

    /// The vector from `o` to this point, as a spec value.
    pub open spec fn minus_point_s(self, o: Point) -> Vector {
        Vector {
            x: fx_sub_s(self.x as int, o.x as int) as i64,
            y: fx_sub_s(self.y as int, o.y as int) as i64,
            z: fx_sub_s(self.z as int, o.z as int) as i64,
        }
    }

    /// Move a point along a vector.
    pub fn plus_vec(&self, v: &Vector) -> (r: Point)
        ensures
            r == self.plus_vec_s(*v),
    {
        Point { x: fx_add(self.x, v.x), y: fx_add(self.y, v.y), z: fx_add(self.z, v.z) }
    }

    /// The vector leading from `o` to this point.
    pub fn minus_point(&self, o: &Point) -> (r: Vector)
        ensures
            r == self.minus_point_s(*o),
    {
        Vector { x: fx_sub(self.x, o.x), y: fx_sub(self.y, o.y), z: fx_sub(self.z, o.z) }
    }

    /// The vector from the origin to this point.
    pub fn as_vector(&self) -> (r: Vector)
        ensures
            r == (Vector { x: self.x, y: self.y, z: self.z }),
    {
        Vector { x: self.x, y: self.y, z: self.z }
    }
}

/// Products of clamped scalars fit comfortably in 128 bits.
pub proof fn lemma_wide_product_bounded(a: int, b: int)
    requires
        -(FX_MAX as int) <= a <= FX_MAX as int,
        -(FX_MAX as int) <= b <= FX_MAX as int,
    ensures
        -(0x4000_0000_0000_0000 * 0x4000_0000_0000_0000) <= a * b <= 0x4000_0000_0000_0000
            * 0x4000_0000_0000_0000,
{
    assert(-(0x4000_0000_0000_0000 * 0x4000_0000_0000_0000) <= a * b <= 0x4000_0000_0000_0000
        * 0x4000_0000_0000_0000) by (nonlinear_arith)
        requires
            -0x4000_0000_0000_0000 <= a <= 0x4000_0000_0000_0000,
            -0x4000_0000_0000_0000 <= b <= 0x4000_0000_0000_0000,
    ;
}

/// Saturate a wide intermediate back into scalar range.
pub fn sat_wide(x: i128) -> (r: i64)
    ensures
        r == sat64(x as int),
{
    if x > FX_MAX as i128 {
        FX_MAX
    } else if x < -(FX_MAX as i128) {
        -FX_MAX
    } else {
        x as i64
    }
}

} // verus!
