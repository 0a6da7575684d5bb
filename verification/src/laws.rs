//! Laws of the geometry and shading kernels.
//!
//! These proof functions state, once and for all inputs, the
//! round-trip and range properties the library promises.  Where
//! fixed-point rounding breaks a property on some inputs, the law is
//! stated on the inputs where it holds exactly, and the restriction
//! is named in the requires clause.

use vstd::prelude::*;

use crate::fx::{FX_MAX, FX_ONE, fx_add_s, fx_mul_s, fx_neg_s, fx_sub_s, fx_div_s, fx_pow_s, fx_sqrt_s, is_sqrt_of, lemma_sqrt_unique, sat64};
use crate::bounds::check_axis_s;
use crate::matrix::{Matrix, map_point_s, map_vector_s, row_apply_s};
use crate::ray::{Ray, fx_ok, point_ok, vector_ok};
use crate::shape::ShapeSet;
use crate::transform::Transform;
use crate::tuple::{Point, Vector, v_dot_s};
use crate::world::{Hit, schlick_s};

verus! {

/// Mapping through the identity matrix returns in-range points
/// unchanged.
pub proof fn lemma_identity_map_point(p: Point)
    requires
        point_ok(p),
    ensures
        map_point_s(Matrix::identity_s(), p) == p,
{
    lemma_identity_row(p.x as int, p.y as int, p.z as int);
    lemma_identity_row(p.y as int, p.x as int, p.z as int);
    lemma_identity_row(p.z as int, p.x as int, p.y as int);
    assert(row_apply_s(FX_ONE as int, 0, 0, 0, p.x as int, p.y as int, p.z as int) == p.x as int);
    assert(row_apply_s(0, FX_ONE as int, 0, 0, p.x as int, p.y as int, p.z as int) == p.y as int)
        by {
        lemma_identity_row(p.y as int, p.x as int, p.z as int);
        assert(0 * sat64(p.x as int) == 0) by (nonlinear_arith);
        assert(0 * sat64(p.z as int) == 0) by (nonlinear_arith);
    }
    assert(row_apply_s(0, 0, FX_ONE as int, 0, p.x as int, p.y as int, p.z as int) == p.z as int)
        by {
        lemma_identity_row(p.z as int, p.x as int, p.y as int);
        assert(0 * sat64(p.x as int) == 0) by (nonlinear_arith);
        assert(0 * sat64(p.y as int) == 0) by (nonlinear_arith);
    }
}

/// One row of the identity: the diagonal one passes its coordinate
/// through exactly.
proof fn lemma_identity_row(x: int, a: int, b: int)
    requires
        fx_ok(x),
    ensures
        sat64((FX_ONE as int * sat64(x) + 0 * sat64(a) + 0 * sat64(b) + 0 * (FX_ONE as int)) / (
        FX_ONE as int)) == x,
{
    assert(0 * sat64(a) == 0) by (nonlinear_arith);
    assert(0 * sat64(b) == 0) by (nonlinear_arith);
    assert(sat64(x) == x);
    assert((65536 * x) / 65536 == x) by {
        vstd::arithmetic::div_mod::lemma_div_multiples_vanish(x, 65536);
    }
}

/// A point carried through a translation and back returns exactly,
/// as long as neither trip saturates: the stored inverse of a
/// translation is its true inverse.
pub proof fn lemma_translation_round_trip(x: i64, y: i64, z: i64, p: Point)
    requires
        point_ok(p),
        fx_ok(x as int) && fx_ok(y as int) && fx_ok(z as int),
        fx_ok(p.x + x) && fx_ok(p.y + y) && fx_ok(p.z + z),
    ensures
        ({
            let t = Transform::translation_s(x, y, z);
            map_point_s(t.inv, map_point_s(t.m, p)) == p
        }),
{
    let t = Transform::translation_s(x, y, z);
    lemma_translation_row(x as int, p.x as int, p.y as int, p.z as int);
    lemma_translation_row(y as int, p.y as int, p.x as int, p.z as int);
    lemma_translation_row(z as int, p.z as int, p.x as int, p.y as int);
    let q = map_point_s(t.m, p);
    assert(q.x == p.x + x && q.y == p.y + y && q.z == p.z + z) by {
        lemma_translation_component(x as int, p.x as int, p.y as int, p.z as int);
        lemma_translation_component(y as int, p.y as int, p.x as int, p.z as int);
        lemma_translation_component(z as int, p.z as int, p.x as int, p.y as int);
    }
    assert(map_point_s(t.inv, q).x == p.x && map_point_s(t.inv, q).y == p.y && map_point_s(
        t.inv,
        q,
    ).z == p.z) by {
        lemma_translation_component(fx_neg_s(x as int), q.x as int, q.y as int, q.z as int);
        lemma_translation_component(fx_neg_s(y as int), q.y as int, q.x as int, q.z as int);
        lemma_translation_component(fx_neg_s(z as int), q.z as int, q.x as int, q.y as int);
    }
}

/// One diagonal row of a translation matrix adds the offset exactly.
proof fn lemma_translation_component(t: int, x: int, a: int, b: int)
    requires
        fx_ok(x),
        fx_ok(t),
        fx_ok(x + t),
    ensures
        row_apply_s(FX_ONE as int, 0, 0, t, x, a, b) == x + t,
{
    assert(0 * sat64(a) == 0) by (nonlinear_arith);
    assert(0 * sat64(b) == 0) by (nonlinear_arith);
    assert(65536 * sat64(x) + sat64(t) * 65536 == 65536 * (x + t)) by (nonlinear_arith)
        requires
            sat64(x) == x,
            sat64(t) == t,
    ;
    assert((65536 * (x + t)) / 65536 == x + t) by {
        vstd::arithmetic::div_mod::lemma_div_multiples_vanish(x + t, 65536);
    }
}

proof fn lemma_translation_row(t: int, x: int, a: int, b: int)
    requires
        fx_ok(x),
        fx_ok(t),
        fx_ok(x + t),
    ensures
        sat64((FX_ONE as int * sat64(x) + 0 * sat64(a) + 0 * sat64(b) + sat64(t) * (FX_ONE as int))
            / (FX_ONE as int)) == x + t,
{
    lemma_translation_component(t, x, a, b);
}

/// Components small enough that doubling them cannot saturate.
pub open spec fn vector_half_ok(v: Vector) -> bool {
    &&& -0x2000_0000_0000_0000 <= v.x <= 0x2000_0000_0000_0000
    &&& -0x2000_0000_0000_0000 <= v.y <= 0x2000_0000_0000_0000
    &&& -0x2000_0000_0000_0000 <= v.z <= 0x2000_0000_0000_0000
}

/// The normal is an exact unit vector along one axis.
pub open spec fn is_axis_unit(n: Vector) -> bool {
    ||| (n.x == FX_ONE || n.x == -FX_ONE) && n.y == 0 && n.z == 0
    ||| (n.y == FX_ONE || n.y == -FX_ONE) && n.x == 0 && n.z == 0
    ||| (n.z == FX_ONE || n.z == -FX_ONE) && n.x == 0 && n.y == 0
}

/// Reflecting twice about an exact axis-aligned unit normal returns
/// the vector unchanged: about such a normal the reflection flips
/// one component exactly.  (About a general unit normal the two
/// truncating products leave an error of a few units.)
pub proof fn lemma_reflect_involution_axis(v: Vector, n: Vector)
    requires
        vector_half_ok(v),
        is_axis_unit(n),
    ensures
        v.reflect_s(n).reflect_s(n) == v,
{
    lemma_reflect_axis(v, n);
    let r = v.reflect_s(n);
    lemma_reflect_axis(r, n);
}

/// Reflecting about an exact axis-aligned unit normal flips the
/// component along that axis and keeps the others.
pub proof fn lemma_reflect_axis(v: Vector, n: Vector)
    requires
        vector_half_ok(v),
        is_axis_unit(n),
    ensures
        (n.x != 0 ==> v.reflect_s(n) == (Vector { x: (-(v.x as int)) as i64, y: v.y, z: v.z })),
        (n.y != 0 ==> v.reflect_s(n) == (Vector { x: v.x, y: (-(v.y as int)) as i64, z: v.z })),
        (n.z != 0 ==> v.reflect_s(n) == (Vector { x: v.x, y: v.y, z: (-(v.z as int)) as i64 })),
        vector_half_ok(v.reflect_s(n)),
{
    let d = v_dot_s(v, n);
    if n.x != 0 {
        lemma_axis_dot(v.x as int, n.x as int, v.y as int, v.z as int);
        lemma_axis_reflect_components(v, n, v.x as int, n.x as int);
    } else if n.y != 0 {
        lemma_axis_dot(v.y as int, n.y as int, v.x as int, v.z as int);
        lemma_axis_reflect_components(v, n, v.y as int, n.y as int);
    } else {
        lemma_axis_dot(v.z as int, n.z as int, v.x as int, v.y as int);
        lemma_axis_reflect_components(v, n, v.z as int, n.z as int);
    }
}

/// The dot product with an axis unit picks out one signed
/// coordinate exactly.
proof fn lemma_axis_dot(c: int, s: int, a: int, b: int)
    requires
        fx_ok(c),
        s == FX_ONE || s == -(FX_ONE as int),
    ensures
        sat64((sat64(c) * sat64(s) + sat64(a) * 0 + sat64(b) * 0) / (FX_ONE as int)) == if s > 0 {
            c
        } else {
            -c
        },
{
    assert(sat64(a) * 0 == 0) by (nonlinear_arith);
    assert(sat64(b) * 0 == 0) by (nonlinear_arith);
    assert(sat64(c) == c);
    if s > 0 {
        assert(c * 65536 == 65536 * c) by (nonlinear_arith);
        assert((65536 * c) / 65536 == c) by {
            vstd::arithmetic::div_mod::lemma_div_multiples_vanish(c, 65536);
        }
    } else {
        assert(c * (-65536) == 65536 * (-c)) by (nonlinear_arith);
        assert((65536 * (-c)) / 65536 == -c) by {
            vstd::arithmetic::div_mod::lemma_div_multiples_vanish(-c, 65536);
        }
    }
}

/// Helper for the axis reflection: with the dot product equal to the
/// signed coordinate, the reflection subtracts exactly twice the
/// coordinate along the axis and nothing elsewhere.
proof fn lemma_axis_reflect_components(v: Vector, n: Vector, c: int, s: int)
    requires
        vector_half_ok(v),
        is_axis_unit(n),
        s == FX_ONE || s == -(FX_ONE as int),
        (n.x as int == s && c == v.x as int && n.y == 0 && n.z == 0) || (n.y as int == s && c
            == v.y as int && n.x == 0 && n.z == 0) || (n.z as int == s && c == v.z as int && n.x
            == 0 && n.y == 0),
    ensures
        (n.x as int == s && n.y == 0 && n.z == 0 ==> v.reflect_s(n) == (Vector {
            x: (-(v.x as int)) as i64,
            y: v.y,
            z: v.z,
        })),
        (n.y as int == s && n.x == 0 && n.z == 0 ==> v.reflect_s(n) == (Vector {
            x: v.x,
            y: (-(v.y as int)) as i64,
            z: v.z,
        })),
        (n.z as int == s && n.x == 0 && n.y == 0 ==> v.reflect_s(n) == (Vector {
            x: v.x,
            y: v.y,
            z: (-(v.z as int)) as i64,
        })),
        vector_half_ok(v.reflect_s(n)),
{
    let d = v_dot_s(v, n);
    if n.x as int == s && n.y == 0 && n.z == 0 {
        lemma_axis_dot(v.x as int, s, v.y as int, v.z as int);
    } else if n.y as int == s && n.x == 0 && n.z == 0 {
        lemma_axis_dot(v.y as int, s, v.x as int, v.z as int);
    } else {
        lemma_axis_dot(v.z as int, s, v.x as int, v.y as int);
    }
    let k = fx_add_s(d, d);
    assert(k == d + d);
    lemma_mul_axis(s, k);
    assert(fx_mul_s(0, k) == 0) by {
        assert(sat64(0) * sat64(k) == 0) by (nonlinear_arith);
        vstd::arithmetic::div_mod::lemma_div_multiples_vanish(0, 65536);
        assert(0 * 65536 == 65536 * 0) by (nonlinear_arith);
    }
}

/// Multiplying an in-range scalar by an exact signed one keeps or
/// flips it exactly.
proof fn lemma_mul_axis(s: int, k: int)
    requires
        s == FX_ONE || s == -(FX_ONE as int),
        fx_ok(k),
    ensures
        fx_mul_s(s, k) == if s > 0 {
            k
        } else {
            -k
        },
{
    assert(sat64(k) == k);
    if s > 0 {
        assert((65536 * k) / 65536 == k) by {
            vstd::arithmetic::div_mod::lemma_div_multiples_vanish(k, 65536);
        }
    } else {
        assert((-65536) * k == 65536 * (-k)) by (nonlinear_arith);
        assert((65536 * (-k)) / 65536 == -k) by {
            vstd::arithmetic::div_mod::lemma_div_multiples_vanish(-k, 65536);
        }
    }
}

/// A ray carried through a shape's inverse transform and handed to
/// the same shape left untransformed yields exactly the hit the
/// transformed shape yields for the original ray: what a primitive
/// answers depends only on its flavour and the object-space ray,
/// never on the stored transform, and an identity transform leaves
/// the already-transformed ray untouched.
pub proof fn lemma_ray_shape_transform_equiv(s1: ShapeSet, s2: ShapeSet, i: int, r: Ray)
    requires
        0 <= i < s1.nodes.len(),
        0 <= i < s2.nodes.len(),
        s2.nodes[i].kind == s1.nodes[i].kind,
        s2.nodes[i].transform == Transform::identity_s(),
    ensures
        ({
            let local = s1.local_ray_s(i, r);
            s2.local_ray_s(i, local) == local && s1.primitive_hit_s(i, local)
                == s2.primitive_hit_s(i, local)
        }),
{
    reveal(ShapeSet::primitive_hit_s);
    let local = s1.local_ray_s(i, r);
    lemma_map_output_in_range(s1.nodes[i].transform.inv, r);
    lemma_identity_map_point(local.origin);
    lemma_identity_map_vector(local.direction);
}

/// Whatever a matrix maps a ray to has every component already
/// saturated into range.
proof fn lemma_map_output_in_range(m: Matrix, r: Ray)
    ensures
        point_ok(map_point_s(m, r.origin)),
        vector_ok(map_vector_s(m, r.direction)),
{
}

/// Mapping through the identity matrix returns in-range vectors
/// unchanged.
pub proof fn lemma_identity_map_vector(v: Vector)
    requires
        vector_ok(v),
    ensures
        map_vector_s(Matrix::identity_s(), v) == v,
{
    lemma_unit_row_first(v.x as int, v.y as int, v.z as int);
    lemma_unit_row_second(v.x as int, v.y as int, v.z as int);
    lemma_unit_row_third(v.x as int, v.y as int, v.z as int);
}

/// A slab the ray runs parallel to, entered from strictly inside,
/// contributes the whole axis: the saturating quotients act as the
/// signed infinities, so the other axes alone decide the hit.
pub proof fn lemma_degenerate_slab(o: int)
    requires
        -(FX_ONE as int) < o < FX_ONE as int,
    ensures
        check_axis_s(-(FX_ONE as int), FX_ONE as int, o, 0) == (-(FX_MAX as int), FX_MAX as int),
{
    assert(fx_sub_s(-(FX_ONE as int), o) < 0);
    assert(fx_sub_s(FX_ONE as int, o) > 0);
}

/// The Schlick reflectance always lies between zero and one, for
/// any positive pair of refractive indices.
pub proof fn lemma_schlick_range(h: Hit)
    requires
        0 < h.n1 <= FX_MAX,
        0 < h.n2 <= FX_MAX,
    ensures
        0 <= schlick_s(h) <= FX_ONE as int,
{
    let cos0 = v_dot_s(h.eyev, h.normalv);
    let cos = if cos0 < 0 {
        0
    } else if cos0 > FX_ONE as int {
        FX_ONE as int
    } else {
        cos0
    };
    let aa = fx_sub_s(h.n1 as int, h.n2 as int);
    let bb = fx_add_s(h.n1 as int, h.n2 as int);
    assert(0 < bb <= FX_MAX as int);
    assert(-bb <= aa <= bb);
    let q = fx_div_s(aa, bb);
    lemma_div_unit(aa, bb);
    let r0 = fx_mul_s(q, q);
    assert(0 <= r0 <= FX_ONE as int) by {
        assert(sat64(q) == q);
        assert(0 <= q * q <= 65536 * 65536) by (nonlinear_arith)
            requires
                -65536 <= q <= 65536,
        ;
        vstd::arithmetic::div_mod::lemma_div_basics_4(q * q, 65536);
        vstd::arithmetic::div_mod::lemma_div_is_ordered(q * q, 65536int * 65536, 65536);
        assert((65536 * 65536) / 65536 == 65536) by {
            vstd::arithmetic::div_mod::lemma_div_multiples_vanish(65536, 65536);
        }
    }
    if h.n1 > h.n2 {
        let n_ratio = fx_div_s(h.n1 as int, h.n2 as int);
        let sin2_t = fx_mul_s(
            fx_mul_s(n_ratio, n_ratio),
            fx_sub_s(FX_ONE as int, fx_mul_s(cos, cos)),
        );
        if sin2_t > FX_ONE as int {
        } else {
            assert(sin2_t >= 0) by {
                lemma_mul_unit_range(cos, cos);
                lemma_mul_nonneg(n_ratio, n_ratio);
                lemma_mul_nonneg(
                    fx_mul_s(n_ratio, n_ratio),
                    fx_sub_s(FX_ONE as int, fx_mul_s(cos, cos)),
                );
            }
            let cos2 = fx_sqrt_s(fx_sub_s(FX_ONE as int, sin2_t));
            lemma_sqrt_unit(fx_sub_s(FX_ONE as int, sin2_t));
            lemma_schlick_blend(r0, cos2);
        }
    } else {
        lemma_schlick_blend(r0, cos);
    }
}

/// The square root of a value at most one is at most one.
proof fn lemma_sqrt_unit(a: int)
    requires
        a <= FX_ONE as int,
    ensures
        0 <= fx_sqrt_s(a) <= FX_ONE as int,
{
    if sat64(a) <= 0 {
        assert(is_sqrt_of(sat64(a), 0));
        assert(is_sqrt_of(sat64(a), fx_sqrt_s(a)));
        lemma_sqrt_unique(sat64(a), fx_sqrt_s(a), 0);
    } else {
        lemma_sqrt_exists(sat64(a));
        assert(is_sqrt_of(sat64(a), fx_sqrt_s(a)));
        let r = fx_sqrt_s(a);
        assert(r <= FX_ONE as int) by (nonlinear_arith)
            requires
                r >= 0,
                r * r <= sat64(a) * 65536,
                0 < sat64(a) <= 65536,
        ;
    }
}

/// Every positive radicand has an integer square root.
proof fn lemma_sqrt_exists(a: int)
    requires
        0 < a,
    ensures
        exists|w: int| #[trigger] is_sqrt_of(a, w),
    decreases a,
{
    if a == 1 {
        assert(is_sqrt_of(1, 256)) by (nonlinear_arith);
    } else {
        lemma_sqrt_exists(a - 1);
        let w = choose|w: int| #[trigger] is_sqrt_of(a - 1, w);
        if (w + 1) * (w + 1) > a * 65536 {
            assert(is_sqrt_of(a, w)) by (nonlinear_arith)
                requires
                    is_sqrt_of(a - 1, w),
                    (w + 1) * (w + 1) > a * 65536,
                    a > 1,
            ;
        } else {
            lemma_sqrt_grow(a, w);
        }
    }
}

/// Helper: grow a square root witness by stepping upward.
proof fn lemma_sqrt_grow(a: int, w: int)
    requires
        0 < a,
        w >= 0,
        w * w <= a * 65536,
        (w + 1) * (w + 1) <= a * 65536,
    ensures
        exists|v: int| #[trigger] is_sqrt_of(a, v),
    decreases a * 65536 - w * w,
{
    if (w + 2) * (w + 2) > a * 65536 {
        assert(is_sqrt_of(a, w + 1));
    } else {
        assert((w + 1) * (w + 1) > w * w) by (nonlinear_arith)
            requires
                w >= 0,
        ;
        lemma_sqrt_grow(a, w + 1);
    }
}

/// The blend `r0 + (1 - r0) * (1 - c)^5` stays within zero and one
/// for `r0` and `c` within zero and one.
proof fn lemma_schlick_blend(r0: int, c: int)
    requires
        0 <= r0 <= FX_ONE as int,
        0 <= c <= FX_ONE as int,
    ensures
        0 <= fx_add_s(r0, fx_mul_s(fx_sub_s(FX_ONE as int, r0), fx_pow_s(fx_sub_s(FX_ONE as int, c), 5)))
            <= FX_ONE as int,
{
    let base = fx_sub_s(FX_ONE as int, c);
    assert(0 <= base <= FX_ONE as int);
    lemma_pow_unit(base, 5);
    let p = fx_pow_s(base, 5);
    let rest = fx_sub_s(FX_ONE as int, r0);
    assert(0 <= rest <= FX_ONE as int);
    lemma_mul_unit_range(rest, p);
    assert(fx_mul_s(rest, p) <= rest) by {
        lemma_mul_le_left(rest, p);
    }
}

/// A power of a value between zero and one stays between zero and
/// one.
proof fn lemma_pow_unit(b: int, n: nat)
    requires
        0 <= b <= FX_ONE as int,
    ensures
        0 <= fx_pow_s(b, n) <= FX_ONE as int,
    decreases n,
{
    if n == 0 {
    } else {
        lemma_pow_unit(b, (n - 1) as nat);
        lemma_mul_unit_range(b, fx_pow_s(b, (n - 1) as nat));
    }
}

/// A truncating square, and any product of non-negatives, is
/// non-negative.
proof fn lemma_mul_nonneg(a: int, b: int)
    requires
        a == b || (0 <= a && 0 <= b),
    ensures
        fx_mul_s(a, b) >= 0,
{
    assert(sat64(a) * sat64(b) >= 0) by (nonlinear_arith)
        requires
            (sat64(a) == sat64(b)) || (0 <= sat64(a) && 0 <= sat64(b)),
    ;
    vstd::arithmetic::div_mod::lemma_div_basics_4(sat64(a) * sat64(b), 65536);
}

/// The truncating product of two values between zero and one stays
/// between zero and one.
proof fn lemma_mul_unit_range(a: int, b: int)
    requires
        0 <= a <= FX_ONE as int,
        0 <= b <= FX_ONE as int,
    ensures
        0 <= fx_mul_s(a, b) <= FX_ONE as int,
{
    assert(sat64(a) == a && sat64(b) == b);
    assert(0 <= a * b <= 65536 * 65536) by (nonlinear_arith)
        requires
            0 <= a <= 65536,
            0 <= b <= 65536,
    ;
    vstd::arithmetic::div_mod::lemma_div_basics_4(a * b, 65536);
    vstd::arithmetic::div_mod::lemma_div_is_ordered(a * b, 65536int * 65536, 65536);
    assert((65536 * 65536) / 65536 == 65536) by {
        vstd::arithmetic::div_mod::lemma_div_multiples_vanish(65536, 65536);
    }
}

/// The truncating product with a factor at most one never exceeds
/// the other factor.
proof fn lemma_mul_le_left(a: int, b: int)
    requires
        0 <= a <= FX_MAX as int,
        0 <= b <= FX_ONE as int,
    ensures
        0 <= fx_mul_s(a, b) <= a,
{
    assert(sat64(a) == a && sat64(b) == b);
    assert(0 <= a * b <= a * 65536) by (nonlinear_arith)
        requires
            0 <= a,
            0 <= b <= 65536,
    ;
    vstd::arithmetic::div_mod::lemma_div_basics_4(a * b, 65536);
    vstd::arithmetic::div_mod::lemma_div_is_ordered(a * b, a * 65536, 65536);
    assert((a * 65536) / 65536 == a) by {
        assert(a * 65536 == 65536 * a) by (nonlinear_arith);
        vstd::arithmetic::div_mod::lemma_div_multiples_vanish(a, 65536);
    }
}

/// The quotient of a numerator no larger in magnitude than its
/// positive denominator lies between minus one and one.
proof fn lemma_div_unit(a: int, b: int)
    requires
        0 < b <= FX_MAX as int,
        -b <= a <= b,
    ensures
        -(FX_ONE as int) <= fx_div_s(a, b) <= FX_ONE as int,
{
    assert(sat64(a) == a && sat64(b) == b);
    assert(a * 65536 <= b * 65536 && -(b * 65536) <= a * 65536) by (nonlinear_arith)
        requires
            -b <= a <= b,
    ;
    vstd::arithmetic::div_mod::lemma_div_is_ordered(a * 65536, b * 65536, b);
    vstd::arithmetic::div_mod::lemma_div_is_ordered(-(b * 65536), a * 65536, b);
    assert((b * 65536) / b == 65536) by {
        vstd::arithmetic::div_mod::lemma_div_multiples_vanish(65536int, b);
    }
    assert((-(b * 65536)) / b == -65536) by {
        assert(-(b * 65536) == b * (-65536)) by (nonlinear_arith);
        vstd::arithmetic::div_mod::lemma_div_multiples_vanish(-65536int, b);
        assert(b * (-65536) == b * (-65536));
    }
}

/// The linear part of a translation is the identity: vectors pass
/// through unchanged, both forward and inverse.
pub proof fn lemma_translation_ignores_vectors(x: i64, y: i64, z: i64, v: Vector)
    requires
        vector_ok(v),
    ensures
        map_vector_s(Transform::translation_s(x, y, z).m, v) == v,
        map_vector_s(Transform::translation_s(x, y, z).inv, v) == v,
{
    lemma_translation_component(0, v.x as int, v.y as int, v.z as int);
    lemma_translation_component(0, v.y as int, v.x as int, v.z as int);
    lemma_translation_component(0, v.z as int, v.x as int, v.y as int);
}

/// A quarter turn about the y axis and its inverse cancel exactly:
/// with sine one and cosine zero every matrix entry is an exact
/// signed unit, so both trips only permute and flip coordinates.
pub proof fn lemma_quarter_rotation_round_trip(p: Point)
    requires
        point_ok(p),
    ensures
        ({
            let t = Transform::rotation_y_s(FX_ONE, 0);
            map_point_s(t.inv, map_point_s(t.m, p)) == p
        }),
{
    let t = Transform::rotation_y_s(FX_ONE, 0);
    let q = map_point_s(t.m, p);
    lemma_unit_row_third(p.x as int, p.y as int, p.z as int);
    lemma_unit_row_second(p.x as int, p.y as int, p.z as int);
    lemma_unit_row_first_neg(p.x as int, p.y as int, p.z as int);
    assert(q.x == p.z && q.y == p.y && q.z == -(p.x as int));
    lemma_unit_row_third_neg(q.x as int, q.y as int, q.z as int);
    lemma_unit_row_second(q.x as int, q.y as int, q.z as int);
    lemma_unit_row_first(q.x as int, q.y as int, q.z as int);
    assert(map_point_s(t.inv, q).x == p.x);
    assert(map_point_s(t.inv, q).y == p.y);
    assert(map_point_s(t.inv, q).z == p.z);
}

/// The row `(1, 0, 0)` picks the first coordinate.
proof fn lemma_unit_row_first(x: int, y: int, z: int)
    requires
        fx_ok(x),
    ensures
        row_apply_s(FX_ONE as int, 0, 0, 0, x, y, z) == x,
{
    assert(0 * sat64(y) == 0) by (nonlinear_arith);
    assert(0 * sat64(z) == 0) by (nonlinear_arith);
    assert((65536 * x) / 65536 == x) by {
        vstd::arithmetic::div_mod::lemma_div_multiples_vanish(x, 65536);
    }
}

/// The row `(-1, 0, 0)` picks the negated first coordinate.
proof fn lemma_unit_row_first_neg(x: int, y: int, z: int)
    requires
        fx_ok(x),
    ensures
        row_apply_s(-(FX_ONE as int), 0, 0, 0, x, y, z) == -x,
{
    assert(0 * sat64(y) == 0) by (nonlinear_arith);
    assert(0 * sat64(z) == 0) by (nonlinear_arith);
    assert((-65536) * x == 65536 * (-x)) by (nonlinear_arith);
    assert((65536 * (-x)) / 65536 == -x) by {
        vstd::arithmetic::div_mod::lemma_div_multiples_vanish(-x, 65536);
    }
}

/// The row `(0, 1, 0)` picks the second coordinate.
proof fn lemma_unit_row_second(x: int, y: int, z: int)
    requires
        fx_ok(y),
    ensures
        row_apply_s(0, FX_ONE as int, 0, 0, x, y, z) == y,
{
    assert(0 * sat64(x) == 0) by (nonlinear_arith);
    assert(0 * sat64(z) == 0) by (nonlinear_arith);
    assert((65536 * y) / 65536 == y) by {
        vstd::arithmetic::div_mod::lemma_div_multiples_vanish(y, 65536);
    }
}

/// The row `(0, 0, 1)` picks the third coordinate.
proof fn lemma_unit_row_third(x: int, y: int, z: int)
    requires
        fx_ok(z),
    ensures
        row_apply_s(0, 0, FX_ONE as int, 0, x, y, z) == z,
{
    assert(0 * sat64(x) == 0) by (nonlinear_arith);
    assert(0 * sat64(y) == 0) by (nonlinear_arith);
    assert((65536 * z) / 65536 == z) by {
        vstd::arithmetic::div_mod::lemma_div_multiples_vanish(z, 65536);
    }
}

/// The row `(0, 0, -1)` picks the negated third coordinate.
proof fn lemma_unit_row_third_neg(x: int, y: int, z: int)
    requires
        fx_ok(z),
    ensures
        row_apply_s(0, 0, -(FX_ONE as int), 0, x, y, z) == -z,
{
    assert(0 * sat64(x) == 0) by (nonlinear_arith);
    assert(0 * sat64(y) == 0) by (nonlinear_arith);
    assert((-65536) * z == 65536 * (-z)) by (nonlinear_arith);
    assert((65536 * (-z)) / 65536 == -z) by {
        vstd::arithmetic::div_mod::lemma_div_multiples_vanish(-z, 65536);
    }
}

} // verus!
