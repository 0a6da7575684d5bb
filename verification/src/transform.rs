//! Invertible affine transforms.
//!
//! A transform carries its matrix together with the matrix of the
//! inverse map, built side by side by every constructor, so no matrix
//! ever needs to be inverted after construction.  Rotations take the
//! sine and cosine of their angle as fixed-point scalars.

use vstd::prelude::*;

use crate::fx::{FX_ONE, fx_div, fx_div_s, fx_mul, fx_mul_s, fx_neg, fx_neg_s, fx_sub, fx_sub_s, fx_add, fx_add_s};
use crate::matrix::{Matrix, compose_s, map_point_s, map_vector_s, map_vector_transposed_s};
use crate::tuple::{Point, Vector};

verus! {

/// An affine map together with its inverse map.
#[derive(Clone, Copy, Debug, PartialEq, Eq, Structural)]
pub struct Transform {
    /// The forward matrix.
    pub m: Matrix,
    /// The matrix of the inverse map.
    pub inv: Matrix,
}

/// The determinant of a 2x2 block, in fixed point.
pub open spec fn cof2_s(a: int, b: int, c: int, d: int) -> int {
    fx_sub_s(fx_mul_s(a, b), fx_mul_s(c, d))
}

fn cof2(a: i64, b: i64, c: i64, d: i64) -> (r: i64)
    ensures
        r == cof2_s(a as int, b as int, c as int, d as int),
{
    fx_sub(fx_mul(a, b), fx_mul(c, d))
}

/// The determinant of the linear part of a matrix.
pub open spec fn det3_s(m: Matrix) -> int {
    fx_add_s(
        fx_sub_s(
            fx_mul_s(m.m00 as int, cof2_s(m.m11 as int, m.m22 as int, m.m12 as int, m.m21 as int)),
            fx_mul_s(m.m01 as int, cof2_s(m.m10 as int, m.m22 as int, m.m12 as int, m.m20 as int)),
        ),
        fx_mul_s(m.m02 as int, cof2_s(m.m10 as int, m.m21 as int, m.m11 as int, m.m20 as int)),
    )
}

fn det3(m: &Matrix) -> (r: i64)
    ensures
        r == det3_s(*m),
{
    fx_add(
        fx_sub(
            fx_mul(m.m00, cof2(m.m11, m.m22, m.m12, m.m21)),
            fx_mul(m.m01, cof2(m.m10, m.m22, m.m12, m.m20)),
        ),
        fx_mul(m.m02, cof2(m.m10, m.m21, m.m11, m.m20)),
    )
}

impl Transform {
    /// The identity transform.
    pub open spec fn identity_s() -> Transform {
        Transform { m: Matrix::identity_s(), inv: Matrix::identity_s() }
    }

    /// The translation transform, with its inverse.
    pub open spec fn translation_s(x: i64, y: i64, z: i64) -> Transform {
        Transform {
            m: Matrix {
                m00: FX_ONE, m01: 0, m02: 0, m03: x,
                m10: 0, m11: FX_ONE, m12: 0, m13: y,
                m20: 0, m21: 0, m22: FX_ONE, m23: z,
            },
            inv: Matrix {
                m00: FX_ONE, m01: 0, m02: 0, m03: fx_neg_s(x as int) as i64,
                m10: 0, m11: FX_ONE, m12: 0, m13: fx_neg_s(y as int) as i64,
                m20: 0, m21: 0, m22: FX_ONE, m23: fx_neg_s(z as int) as i64,
            },
        }
    }

    /// The scaling transform; its inverse scales by the fixed-point
    /// reciprocals.
    pub open spec fn scaling_s(x: i64, y: i64, z: i64) -> Transform {
        Transform {
            m: Matrix {
                m00: x, m01: 0, m02: 0, m03: 0,
                m10: 0, m11: y, m12: 0, m13: 0,
                m20: 0, m21: 0, m22: z, m23: 0,
            },
            inv: Matrix {
                m00: fx_div_s(FX_ONE as int, x as int) as i64, m01: 0, m02: 0, m03: 0,
                m10: 0, m11: fx_div_s(FX_ONE as int, y as int) as i64, m12: 0, m13: 0,
                m20: 0, m21: 0, m22: fx_div_s(FX_ONE as int, z as int) as i64, m23: 0,
            },
        }
    }

    /// Rotation about the x axis from the sine and cosine of the
    /// angle; the inverse is the transpose.
    pub open spec fn rotation_x_s(sin_t: i64, cos_t: i64) -> Transform {
        Transform {
            m: Matrix {
                m00: FX_ONE, m01: 0, m02: 0, m03: 0,
                m10: 0, m11: cos_t, m12: fx_neg_s(sin_t as int) as i64, m13: 0,
                m20: 0, m21: sin_t, m22: cos_t, m23: 0,
            },
            inv: Matrix {
                m00: FX_ONE, m01: 0, m02: 0, m03: 0,
                m10: 0, m11: cos_t, m12: sin_t, m13: 0,
                m20: 0, m21: fx_neg_s(sin_t as int) as i64, m22: cos_t, m23: 0,
            },
        }
    }

    /// Rotation about the y axis from the sine and cosine of the
    /// angle; the inverse is the transpose.
    pub open spec fn rotation_y_s(sin_t: i64, cos_t: i64) -> Transform {
        Transform {
            m: Matrix {
                m00: cos_t, m01: 0, m02: sin_t, m03: 0,
                m10: 0, m11: FX_ONE, m12: 0, m13: 0,
                m20: fx_neg_s(sin_t as int) as i64, m21: 0, m22: cos_t, m23: 0,
            },
            inv: Matrix {
                m00: cos_t, m01: 0, m02: fx_neg_s(sin_t as int) as i64, m03: 0,
                m10: 0, m11: FX_ONE, m12: 0, m13: 0,
                m20: sin_t, m21: 0, m22: cos_t, m23: 0,
            },
        }
    }

    /// Rotation about the z axis from the sine and cosine of the
    /// angle; the inverse is the transpose.
    pub open spec fn rotation_z_s(sin_t: i64, cos_t: i64) -> Transform {
        Transform {
            m: Matrix {
                m00: cos_t, m01: fx_neg_s(sin_t as int) as i64, m02: 0, m03: 0,
                m10: sin_t, m11: cos_t, m12: 0, m13: 0,
                m20: 0, m21: 0, m22: FX_ONE, m23: 0,
            },
            inv: Matrix {
                m00: cos_t, m01: sin_t, m02: 0, m03: 0,
                m10: fx_neg_s(sin_t as int) as i64, m11: cos_t, m12: 0, m13: 0,
                m20: 0, m21: 0, m22: FX_ONE, m23: 0,
            },
        }
    }

    /// The identity transform.
    pub fn identity() -> (r: Transform)
        ensures
            r == Transform::identity_s(),
    {
        Transform { m: Matrix::identity(), inv: Matrix::identity() }
    }

    /// Translation by `(x, y, z)`.
    pub fn translation(x: i64, y: i64, z: i64) -> (r: Transform)
        ensures
            r == Transform::translation_s(x, y, z),
    {
        Transform {
            m: Matrix {
                m00: FX_ONE, m01: 0, m02: 0, m03: x,
                m10: 0, m11: FX_ONE, m12: 0, m13: y,
                m20: 0, m21: 0, m22: FX_ONE, m23: z,
            },
            inv: Matrix {
                m00: FX_ONE, m01: 0, m02: 0, m03: fx_neg(x),
                m10: 0, m11: FX_ONE, m12: 0, m13: fx_neg(y),
                m20: 0, m21: 0, m22: FX_ONE, m23: fx_neg(z),
            },
        }
    }

    /// Scaling by `(x, y, z)`.
    pub fn scaling(x: i64, y: i64, z: i64) -> (r: Transform)
        ensures
            r == Transform::scaling_s(x, y, z),
    {
        Transform {
            m: Matrix {
                m00: x, m01: 0, m02: 0, m03: 0,
                m10: 0, m11: y, m12: 0, m13: 0,
                m20: 0, m21: 0, m22: z, m23: 0,
            },
            inv: Matrix {
                m00: fx_div(FX_ONE, x), m01: 0, m02: 0, m03: 0,
                m10: 0, m11: fx_div(FX_ONE, y), m12: 0, m13: 0,
                m20: 0, m21: 0, m22: fx_div(FX_ONE, z), m23: 0,
            },
        }
    }

    /// Rotation about the x axis.
    pub fn rotation_x(sin_t: i64, cos_t: i64) -> (r: Transform)
        ensures
            r == Transform::rotation_x_s(sin_t, cos_t),
    {
        let ns = fx_neg(sin_t);
        Transform {
            m: Matrix {
                m00: FX_ONE, m01: 0, m02: 0, m03: 0,
                m10: 0, m11: cos_t, m12: ns, m13: 0,
                m20: 0, m21: sin_t, m22: cos_t, m23: 0,
            },
            inv: Matrix {
                m00: FX_ONE, m01: 0, m02: 0, m03: 0,
                m10: 0, m11: cos_t, m12: sin_t, m13: 0,
                m20: 0, m21: ns, m22: cos_t, m23: 0,
            },
        }
    }

    /// Rotation about the y axis.
    pub fn rotation_y(sin_t: i64, cos_t: i64) -> (r: Transform)
        ensures
            r == Transform::rotation_y_s(sin_t, cos_t),
    {
        let ns = fx_neg(sin_t);
        Transform {
            m: Matrix {
                m00: cos_t, m01: 0, m02: sin_t, m03: 0,
                m10: 0, m11: FX_ONE, m12: 0, m13: 0,
                m20: ns, m21: 0, m22: cos_t, m23: 0,
            },
            inv: Matrix {
                m00: cos_t, m01: 0, m02: ns, m03: 0,
                m10: 0, m11: FX_ONE, m12: 0, m13: 0,
                m20: sin_t, m21: 0, m22: cos_t, m23: 0,
            },
        }
    }

    /// Rotation about the z axis.
    pub fn rotation_z(sin_t: i64, cos_t: i64) -> (r: Transform)
        ensures
            r == Transform::rotation_z_s(sin_t, cos_t),
    {
        let ns = fx_neg(sin_t);
        Transform {
            m: Matrix {
                m00: cos_t, m01: ns, m02: 0, m03: 0,
                m10: sin_t, m11: cos_t, m12: 0, m13: 0,
                m20: 0, m21: 0, m22: FX_ONE, m23: 0,
            },
            inv: Matrix {
                m00: cos_t, m01: sin_t, m02: 0, m03: 0,
                m10: ns, m11: cos_t, m12: 0, m13: 0,
                m20: 0, m21: 0, m22: FX_ONE, m23: 0,
            },
        }
    }

    /// Shearing: each coordinate is skewed by the two others.  The
    /// inverse is the adjugate of the shear matrix over its
    /// determinant.
    pub fn shearing(xy: i64, xz: i64, yx: i64, yz: i64, zx: i64, zy: i64) -> (r: Transform)
        ensures
            r.m == (Matrix {
                m00: FX_ONE, m01: xy, m02: xz, m03: 0,
                m10: yx, m11: FX_ONE, m12: yz, m13: 0,
                m20: zx, m21: zy, m22: FX_ONE, m23: 0,
            }),
            ({
                let d = det3_s(r.m);
                r.inv.m00 == fx_div_s(cof2_s(r.m.m11 as int, r.m.m22 as int, r.m.m12 as int, r.m.m21 as int), d)
                    && r.inv.m01 == fx_div_s(fx_neg_s(cof2_s(r.m.m01 as int, r.m.m22 as int, r.m.m02 as int, r.m.m21 as int)), d)
                    && r.inv.m02 == fx_div_s(cof2_s(r.m.m01 as int, r.m.m12 as int, r.m.m02 as int, r.m.m11 as int), d)
                    && r.inv.m10 == fx_div_s(fx_neg_s(cof2_s(r.m.m10 as int, r.m.m22 as int, r.m.m12 as int, r.m.m20 as int)), d)
                    && r.inv.m11 == fx_div_s(cof2_s(r.m.m00 as int, r.m.m22 as int, r.m.m02 as int, r.m.m20 as int), d)
                    && r.inv.m12 == fx_div_s(fx_neg_s(cof2_s(r.m.m00 as int, r.m.m12 as int, r.m.m02 as int, r.m.m10 as int)), d)
                    && r.inv.m20 == fx_div_s(cof2_s(r.m.m10 as int, r.m.m21 as int, r.m.m11 as int, r.m.m20 as int), d)
                    && r.inv.m21 == fx_div_s(fx_neg_s(cof2_s(r.m.m00 as int, r.m.m21 as int, r.m.m01 as int, r.m.m20 as int)), d)
                    && r.inv.m22 == fx_div_s(cof2_s(r.m.m00 as int, r.m.m11 as int, r.m.m01 as int, r.m.m10 as int), d)
                    && r.inv.m03 == 0 && r.inv.m13 == 0 && r.inv.m23 == 0
            }),
    {
        let m = Matrix {
            m00: FX_ONE, m01: xy, m02: xz, m03: 0,
            m10: yx, m11: FX_ONE, m12: yz, m13: 0,
            m20: zx, m21: zy, m22: FX_ONE, m23: 0,
        };
        let d = det3(&m);
        let inv = Matrix {
            m00: fx_div(cof2(m.m11, m.m22, m.m12, m.m21), d),
            m01: fx_div(fx_neg(cof2(m.m01, m.m22, m.m02, m.m21)), d),
            m02: fx_div(cof2(m.m01, m.m12, m.m02, m.m11), d),
            m03: 0,
            m10: fx_div(fx_neg(cof2(m.m10, m.m22, m.m12, m.m20)), d),
            m11: fx_div(cof2(m.m00, m.m22, m.m02, m.m20), d),
            m12: fx_div(fx_neg(cof2(m.m00, m.m12, m.m02, m.m10)), d),
            m13: 0,
            m20: fx_div(cof2(m.m10, m.m21, m.m11, m.m20), d),
            m21: fx_div(fx_neg(cof2(m.m00, m.m21, m.m01, m.m20)), d),
            m22: fx_div(cof2(m.m00, m.m11, m.m01, m.m10), d),
            m23: 0,
        };
        Transform { m, inv }
    }

    /// The inverse transform: the two matrices swap places.
    pub fn inverse(&self) -> (r: Transform)
        ensures
            r.m == self.inv,
            r.inv == self.m,
    {
        Transform { m: self.inv, inv: self.m }
    }

    /// Composition as a spec value: the forward matrices compose one
    /// way, the inverse matrices the other way around.
    pub open spec fn compose_t_s(self, o: Transform) -> Transform {
        Transform { m: compose_s(self.m, o.m), inv: compose_s(o.inv, self.inv) }
    }

    /// Composition `self * o`: applying the result applies `o` first.
    pub fn compose(&self, o: &Transform) -> (r: Transform)
        ensures
            r == self.compose_t_s(*o),
    {
        Transform { m: self.m.compose(&o.m), inv: o.inv.compose(&self.inv) }
    }

    /// Map a point through the forward matrix.
    pub fn apply_point(&self, p: &Point) -> (r: Point)
        ensures
            r == map_point_s(self.m, *p),
    {
        self.m.mul_point(p)
    }

    /// Map a vector through the forward matrix.
    pub fn apply_vector(&self, v: &Vector) -> (r: Vector)
        ensures
            r == map_vector_s(self.m, *v),
    {
        self.m.mul_vector(v)
    }

    /// Map a point through the inverse matrix.
    pub fn inv_point(&self, p: &Point) -> (r: Point)
        ensures
            r == map_point_s(self.inv, *p),
    {
        self.inv.mul_point(p)
    }

    /// Map a vector through the inverse matrix.
    pub fn inv_vector(&self, v: &Vector) -> (r: Vector)
        ensures
            r == map_vector_s(self.inv, *v),
    {
        self.inv.mul_vector(v)
    }

    /// Map a vector through the transpose of the linear part of the
    /// inverse matrix, as normal transport requires.
    pub fn inv_vector_transposed(&self, v: &Vector) -> (r: Vector)
        ensures
            r == map_vector_transposed_s(self.inv, *v),
    {
        self.inv.mul_vector_transposed(v)
    }
}

/// The orientation matrix of a camera looking along `forward` with
/// `left` and `true_up` as its other axes.
pub open spec fn orientation_s(left: Vector, true_up: Vector, forward: Vector) -> Matrix {
    Matrix {
        m00: left.x, m01: left.y, m02: left.z, m03: 0,
        m10: true_up.x, m11: true_up.y, m12: true_up.z, m13: 0,
        m20: fx_neg_s(forward.x as int) as i64,
        m21: fx_neg_s(forward.y as int) as i64,
        m22: fx_neg_s(forward.z as int) as i64,
        m23: 0,
    }
}

/// The view transform as a spec value, mirroring `view_transform`.
pub open spec fn view_transform_s(from: Point, to: Point, up: Vector) -> Transform {
    let forward = to.minus_point_s(from).normalize_s();
    let upn = up.normalize_s();
    let left = forward.cross_s(upn);
    let true_up = left.cross_s(forward);
    let orient = orientation_s(left, true_up, forward);
    let orient_inv = Matrix {
        m00: orient.m00, m01: orient.m10, m02: orient.m20, m03: 0,
        m10: orient.m01, m11: orient.m11, m12: orient.m21, m13: 0,
        m20: orient.m02, m21: orient.m12, m22: orient.m22, m23: 0,
    };
    let orientation = Transform { m: orient, inv: orient_inv };
    let shift = Transform::translation_s(
        fx_neg_s(from.x as int) as i64,
        fx_neg_s(from.y as int) as i64,
        fx_neg_s(from.z as int) as i64,
    );
    orientation.compose_t_s(shift)
}

/// The view transform of a camera standing at `from`, looking at `to`,
/// with `up` roughly upward: an orientation matrix composed with a
/// translation to the origin.  The orientation rows are near-unit and
/// near-orthogonal, so its transpose stands in for its inverse.
pub fn view_transform(from: &Point, to: &Point, up: &Vector) -> (r: Transform)
    ensures
        r == view_transform_s(*from, *to, *up),
{
    let forward = to.minus_point(from).normalize();
    let upn = up.normalize();
    let left = forward.cross(&upn);
    let true_up = left.cross(&forward);
    let orient = Matrix {
        m00: left.x, m01: left.y, m02: left.z, m03: 0,
        m10: true_up.x, m11: true_up.y, m12: true_up.z, m13: 0,
        m20: fx_neg(forward.x), m21: fx_neg(forward.y), m22: fx_neg(forward.z), m23: 0,
    };
    let orient_inv = Matrix {
        m00: orient.m00, m01: orient.m10, m02: orient.m20, m03: 0,
        m10: orient.m01, m11: orient.m11, m12: orient.m21, m13: 0,
        m20: orient.m02, m21: orient.m12, m22: orient.m22, m23: 0,
    };
    let orientation = Transform { m: orient, inv: orient_inv };
    let shift = Transform::translation(fx_neg(from.x), fx_neg(from.y), fx_neg(from.z));
    orientation.compose(&shift)
}

} // verus!
