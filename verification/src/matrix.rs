//! Affine 3x4 fixed-point matrices.
//!
//! The upper-left 3x3 block is the linear part; the fourth column is the
//! translation.  Points are mapped through the full matrix, vectors only
//! through the linear part.  Each output component is a wide sum of
//! products truncated once, mirrored exactly by `row_apply_s`.

use vstd::prelude::*;

use crate::fx::{FX_ONE, fx_clamp, sat64};
use crate::tuple::{Point, Vector, lemma_wide_product_bounded, sat_wide};

verus! {

/// An affine map: rows 0..3, columns 0..3 linear, column 3 translation.
#[derive(Clone, Copy, Debug, PartialEq, Eq, Structural)]
pub struct Matrix {
    pub m00: i64,
    pub m01: i64,
    pub m02: i64,
    pub m03: i64,
    pub m10: i64,
    pub m11: i64,
    pub m12: i64,
    pub m13: i64,
    pub m20: i64,
    pub m21: i64,
    pub m22: i64,
    pub m23: i64,
}

/// One output component: the wide sum `m0*x + m1*y + m2*z + t*2^16`,
/// truncated once and saturated.
pub open spec fn row_apply_s(m0: int, m1: int, m2: int, t: int, x: int, y: int, z: int) -> int {
    sat64(
        (sat64(m0) * sat64(x) + sat64(m1) * sat64(y) + sat64(m2) * sat64(z) + sat64(t) * (
        FX_ONE as int)) / (FX_ONE as int),
    )
}

/// The image of a point under a matrix.
pub open spec fn map_point_s(m: Matrix, p: Point) -> Point {
    Point {
        x: row_apply_s(m.m00 as int, m.m01 as int, m.m02 as int, m.m03 as int, p.x as int, p.y as int, p.z as int) as i64,
        y: row_apply_s(m.m10 as int, m.m11 as int, m.m12 as int, m.m13 as int, p.x as int, p.y as int, p.z as int) as i64,
        z: row_apply_s(m.m20 as int, m.m21 as int, m.m22 as int, m.m23 as int, p.x as int, p.y as int, p.z as int) as i64,
    }
}

/// The image of a vector: the translation column is ignored.
pub open spec fn map_vector_s(m: Matrix, v: Vector) -> Vector {
    Vector {
        x: row_apply_s(m.m00 as int, m.m01 as int, m.m02 as int, 0, v.x as int, v.y as int, v.z as int) as i64,
        y: row_apply_s(m.m10 as int, m.m11 as int, m.m12 as int, 0, v.x as int, v.y as int, v.z as int) as i64,
        z: row_apply_s(m.m20 as int, m.m21 as int, m.m22 as int, 0, v.x as int, v.y as int, v.z as int) as i64,
    }
}

/// The image of a vector under the transpose of the linear part.
pub open spec fn map_vector_transposed_s(m: Matrix, v: Vector) -> Vector {
    Vector {
        x: row_apply_s(m.m00 as int, m.m10 as int, m.m20 as int, 0, v.x as int, v.y as int, v.z as int) as i64,
        y: row_apply_s(m.m01 as int, m.m11 as int, m.m21 as int, 0, v.x as int, v.y as int, v.z as int) as i64,
        z: row_apply_s(m.m02 as int, m.m12 as int, m.m22 as int, 0, v.x as int, v.y as int, v.z as int) as i64,
    }
}

/// The composition `a * b`: applying the result applies `b` first.
/// Its columns are the images of the columns of `b` under `a`.
pub open spec fn compose_s(a: Matrix, b: Matrix) -> Matrix {
    let c0 = map_vector_s(a, Vector { x: b.m00, y: b.m10, z: b.m20 });
    let c1 = map_vector_s(a, Vector { x: b.m01, y: b.m11, z: b.m21 });
    let c2 = map_vector_s(a, Vector { x: b.m02, y: b.m12, z: b.m22 });
    let c3 = map_point_s(a, Point { x: b.m03, y: b.m13, z: b.m23 });
    Matrix {
        m00: c0.x, m01: c1.x, m02: c2.x, m03: c3.x,
        m10: c0.y, m11: c1.y, m12: c2.y, m13: c3.y,
        m20: c0.z, m21: c1.z, m22: c2.z, m23: c3.z,
    }
}

fn row_apply(m0: i64, m1: i64, m2: i64, t: i64, x: i64, y: i64, z: i64) -> (r: i64)
    ensures
        r == row_apply_s(m0 as int, m1 as int, m2 as int, t as int, x as int, y as int, z as int),
{
    let c0 = fx_clamp(m0);
    let c1 = fx_clamp(m1);
    let c2 = fx_clamp(m2);
    let ct = fx_clamp(t);
    let cx = fx_clamp(x);
    let cy = fx_clamp(y);
    let cz = fx_clamp(z);
    proof {
        lemma_wide_product_bounded(c0 as int, cx as int);
        lemma_wide_product_bounded(c1 as int, cy as int);
        lemma_wide_product_bounded(c2 as int, cz as int);
        lemma_wide_product_bounded(ct as int, FX_ONE as int);
    }
    let p: i128 = (c0 as i128) * (cx as i128) + (c1 as i128) * (cy as i128) + (c2 as i128) * (
    cz as i128) + (ct as i128) * (FX_ONE as i128);
    let q = p.checked_div_euclid(FX_ONE as i128).unwrap();
    sat_wide(q)
}

impl Matrix {
    /// The identity matrix.
    pub open spec fn identity_s() -> Matrix {
        Matrix {
            m00: FX_ONE, m01: 0, m02: 0, m03: 0,
            m10: 0, m11: FX_ONE, m12: 0, m13: 0,
            m20: 0, m21: 0, m22: FX_ONE, m23: 0,
        }
    }

    /// The identity map.
    pub fn identity() -> (r: Matrix)
        ensures
            r == Matrix::identity_s(),
    {
        Matrix {
            m00: FX_ONE, m01: 0, m02: 0, m03: 0,
            m10: 0, m11: FX_ONE, m12: 0, m13: 0,
            m20: 0, m21: 0, m22: FX_ONE, m23: 0,
        }
    }

    /// Map a point through the full affine matrix.
    pub fn mul_point(&self, p: &Point) -> (r: Point)
        ensures
            r == map_point_s(*self, *p),
    {
        Point {
            x: row_apply(self.m00, self.m01, self.m02, self.m03, p.x, p.y, p.z),
            y: row_apply(self.m10, self.m11, self.m12, self.m13, p.x, p.y, p.z),
            z: row_apply(self.m20, self.m21, self.m22, self.m23, p.x, p.y, p.z),
        }
    }

    /// Map a vector through the linear part only.
    pub fn mul_vector(&self, v: &Vector) -> (r: Vector)
        ensures
            r == map_vector_s(*self, *v),
    {
        Vector {
            x: row_apply(self.m00, self.m01, self.m02, 0, v.x, v.y, v.z),
            y: row_apply(self.m10, self.m11, self.m12, 0, v.x, v.y, v.z),
            z: row_apply(self.m20, self.m21, self.m22, 0, v.x, v.y, v.z),
        }
    }

    /// Map a vector through the transpose of the linear part, as
    /// normal transport requires.
    pub fn mul_vector_transposed(&self, v: &Vector) -> (r: Vector)
        ensures
            r == map_vector_transposed_s(*self, *v),
    {
        Vector {
            x: row_apply(self.m00, self.m10, self.m20, 0, v.x, v.y, v.z),
            y: row_apply(self.m01, self.m11, self.m21, 0, v.x, v.y, v.z),
            z: row_apply(self.m02, self.m12, self.m22, 0, v.x, v.y, v.z),
        }
    }

    /// The composition `self * o`: applying the result applies `o`
    /// first.
    pub fn compose(&self, o: &Matrix) -> (r: Matrix)
        ensures
            r == compose_s(*self, *o),
    {
        let c0 = self.mul_vector(&Vector { x: o.m00, y: o.m10, z: o.m20 });
        let c1 = self.mul_vector(&Vector { x: o.m01, y: o.m11, z: o.m21 });
        let c2 = self.mul_vector(&Vector { x: o.m02, y: o.m12, z: o.m22 });
        let c3 = self.mul_point(&Point { x: o.m03, y: o.m13, z: o.m23 });
        Matrix {
            m00: c0.x, m01: c1.x, m02: c2.x, m03: c3.x,
            m10: c0.y, m11: c1.y, m12: c2.y, m13: c3.y,
            m20: c0.z, m21: c1.z, m22: c2.z, m23: c3.z,
        }
    }
}

} // verus!
