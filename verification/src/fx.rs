//! Signed 64-bit fixed-point scalars with 16 fractional bits.
//!
//! Every arithmetic operation first clamps its operands into
//! `[-FX_MAX, FX_MAX]` and clamps its result the same way, so the
//! operations are total: no call can overflow or divide by zero.  The
//! `*_s` spec functions mirror the executable operations exactly.

use vstd::prelude::*;

verus! {

/// The fixed-point representation of one: 2^16.
pub const FX_ONE: i64 = 65536;

/// Largest magnitude a scalar may take: 2^62.
pub const FX_MAX: i64 = 0x4000_0000_0000_0000;

/// Intersection tolerance: about 1.07e-4 in real terms.
pub const FX_EPS: i64 = 7;

/// Clamp an unbounded integer into the representable range.
pub open spec fn sat64(x: int) -> int {
    if x > FX_MAX {
        FX_MAX as int
    } else if x < -(FX_MAX as int) {
        -(FX_MAX as int)
    } else {
        x
    }
}

/// Saturating addition of two scalars.
pub open spec fn fx_add_s(a: int, b: int) -> int {
    sat64(sat64(a) + sat64(b))
}

/// Saturating subtraction of two scalars.
pub open spec fn fx_sub_s(a: int, b: int) -> int {
    sat64(sat64(a) - sat64(b))
}

/// Negation of a scalar.
pub open spec fn fx_neg_s(a: int) -> int {
    sat64(-sat64(a))
}

/// Saturating fixed-point product: the floor of a*b / 2^16.
pub open spec fn fx_mul_s(a: int, b: int) -> int {
    sat64((sat64(a) * sat64(b)) / (FX_ONE as int))
}

/// Saturating fixed-point quotient; division by zero saturates to the
/// signed representation of infinity.  The quotient rounds toward
/// negative infinity for a positive divisor, and is the negation of
/// that quotient for a negative one.
pub open spec fn fx_div_s(a: int, b: int) -> int {
    if sat64(b) == 0 {
        if sat64(a) >= 0 {
            FX_MAX as int
        } else {
            -(FX_MAX as int)
        }
    } else if sat64(b) > 0 {
        sat64((sat64(a) * (FX_ONE as int)) / sat64(b))
    } else {
        sat64(-((sat64(a) * (FX_ONE as int)) / -sat64(b)))
    }
}

/// `r` is the fixed-point square root of the (already clamped) scalar `a`:
/// zero for non-positive input, else the integer square root of a * 2^16.
pub open spec fn is_sqrt_of(a: int, r: int) -> bool {
    if a <= 0 {
        r == 0
    } else {
        r >= 0 && r * r <= a * (FX_ONE as int) && (r + 1) * (r + 1) > a * (FX_ONE as int)
    }
}

/// The fixed-point square root as a function, defined through its
/// characterising predicate.
pub open spec fn fx_sqrt_s(a: int) -> int {
    choose|r: int| is_sqrt_of(sat64(a), r)
}

/// Fixed-point exponentiation with a natural exponent.
pub open spec fn fx_pow_s(b: int, n: nat) -> int
    decreases n,
{
    if n == 0 {
        FX_ONE as int
    } else {
        fx_mul_s(b, fx_pow_s(b, (n - 1) as nat))
    }
}

/// The floor of a scalar, as an unscaled integer.
pub open spec fn fx_floor_s(a: int) -> int {
    sat64(a) / (FX_ONE as int)
}

/// The square root is unique: any two integers satisfying the
/// characterising predicate for the same radicand are equal.
pub proof fn lemma_sqrt_unique(a: int, r1: int, r2: int)
    requires
        is_sqrt_of(a, r1),
        is_sqrt_of(a, r2),
    ensures
        r1 == r2,
{
    if a > 0 {
        assert(r1 == r2) by (nonlinear_arith)
            requires
                r1 >= 0 && r1 * r1 <= a * 65536 && (r1 + 1) * (r1 + 1) > a * 65536,
                r2 >= 0 && r2 * r2 <= a * 65536 && (r2 + 1) * (r2 + 1) > a * 65536,
        ;
    }
}

/// Clamp a scalar into the representable range.
pub fn fx_clamp(a: i64) -> (r: i64)
    ensures
        r == sat64(a as int),
{
    if a > FX_MAX {
        FX_MAX
    } else if a < -FX_MAX {
        -FX_MAX
    } else {
        a
    }
}

fn sat_from_wide(x: i128) -> (r: i64)
    ensures
        r == sat64(x as int),
{
    if x > FX_MAX as i128 {
        FX_MAX
    } else if x < -(FX_MAX as i128) {
        -FX_MAX
    } else {
        x as i64
    }
}

/// Saturating addition.
pub fn fx_add(a: i64, b: i64) -> (r: i64)
    ensures
        r == fx_add_s(a as int, b as int),
{
    let xa = fx_clamp(a);
    let xb = fx_clamp(b);
    sat_from_wide(xa as i128 + xb as i128)
}

/// Saturating subtraction.
pub fn fx_sub(a: i64, b: i64) -> (r: i64)
    ensures
        r == fx_sub_s(a as int, b as int),
{
    let xa = fx_clamp(a);
    let xb = fx_clamp(b);
    sat_from_wide(xa as i128 - xb as i128)
}

/// Negation.
pub fn fx_neg(a: i64) -> (r: i64)
    ensures
        r == fx_neg_s(a as int),
{
    let xa = fx_clamp(a);
    -xa
}

/// Saturating fixed-point multiplication.
pub fn fx_mul(a: i64, b: i64) -> (r: i64)
    ensures
        r == fx_mul_s(a as int, b as int),
{
    let xa = fx_clamp(a);
    let xb = fx_clamp(b);
    proof {
        assert((xa as i128) * (xb as i128) <= 0x4000_0000_0000_0000i128 * 0x4000_0000_0000_0000i128
            && (xa as i128) * (xb as i128) >= -(0x4000_0000_0000_0000i128
            * 0x4000_0000_0000_0000i128)) by (nonlinear_arith)
            requires
                -0x4000_0000_0000_0000i128 <= xa as i128 <= 0x4000_0000_0000_0000i128,
                -0x4000_0000_0000_0000i128 <= xb as i128 <= 0x4000_0000_0000_0000i128,
        ;
    }
    let p: i128 = (xa as i128) * (xb as i128);
    let q = p.checked_div_euclid(FX_ONE as i128).unwrap();
    sat_from_wide(q)
}

/// Saturating fixed-point division; division by zero yields the signed
/// representation of infinity.
pub fn fx_div(a: i64, b: i64) -> (r: i64)
    ensures
        r == fx_div_s(a as int, b as int),
{
    let xa = fx_clamp(a);
    let xb = fx_clamp(b);
    if xb == 0 {
        if xa >= 0 {
            FX_MAX
        } else {
            -FX_MAX
        }
    } else {
        proof {
            assert((xa as i128) * (FX_ONE as i128) <= 0x4000_0000_0000_0000i128 * 65536
                && (xa as i128) * (FX_ONE as i128) >= -(0x4000_0000_0000_0000i128 * 65536))
                by (nonlinear_arith)
                requires
                    -0x4000_0000_0000_0000i128 <= xa as i128 <= 0x4000_0000_0000_0000i128,
            ;
        }
        let p: i128 = (xa as i128) * (FX_ONE as i128);
        let d: i128 = if xb < 0 {
            -(xb as i128)
        } else {
            xb as i128
        };
        proof {
            lemma_div_quotient_bounded(p as int, d as int);
        }
        let q = p.checked_div_euclid(d).unwrap();
        if xb < 0 {
            sat_from_wide(-q)
        } else {
            sat_from_wide(q)
        }
    }
}

/// For a bounded dividend and a positive divisor, the Euclidean
/// quotient is bounded as well.
proof fn lemma_div_quotient_bounded(p: int, d: int)
    requires
        d >= 1,
        -0x4000_0000_0000_0000 * 65536 <= p <= 0x4000_0000_0000_0000 * 65536,
    ensures
        -0x8000_0000_0000_0000 * 65536 <= p / d <= 0x4000_0000_0000_0000 * 65536,
{
    vstd::arithmetic::div_mod::lemma_fundamental_div_mod(p, d);
    vstd::arithmetic::div_mod::lemma_mod_bound(p, d);
    let q = p / d;
    let r = p % d;
    assert(-0x8000_0000_0000_0000 * 65536 <= q <= 0x4000_0000_0000_0000 * 65536)
        by (nonlinear_arith)
        requires
            p == d * q + r,
            0 <= r < d,
            d >= 1,
            -0x4000_0000_0000_0000 * 65536 <= p <= 0x4000_0000_0000_0000 * 65536,
    ;
}

/// Fixed-point square root; non-positive inputs yield zero.
pub fn fx_sqrt(a: i64) -> (r: i64)
    ensures
        r == fx_sqrt_s(a as int),
        is_sqrt_of(sat64(a as int), r as int),
        r >= 0,
{
    let xa = fx_clamp(a);
    if xa <= 0 {
        proof {
            assert(is_sqrt_of(sat64(a as int), 0));
            lemma_sqrt_unique(sat64(a as int), fx_sqrt_s(a as int), 0);
        }
        0
    } else {
        let x: i128 = (xa as i128) * (FX_ONE as i128);
        let mut lo: i128 = 0;
        let mut hi: i128 = 0x100_0000_0000;  // 2^40
        proof {
            assert(hi * hi > x) by (nonlinear_arith)
                requires
                    hi == 0x100_0000_0000i128,
                    x < 0x4000_0000_0000_0000i128 * 65536 + 65536,
            ;
        }
        while lo + 1 < hi
            invariant
                0 <= lo < hi <= 0x100_0000_0000i128,
                lo * lo <= x,
                hi * hi > x,
                x == sat64(a as int) * (FX_ONE as int),
            decreases hi - lo,
        {
            let mid = lo + (hi - lo) / 2;
            proof {
                assert(mid * mid <= 0x100_0000_0000i128 * 0x100_0000_0000i128) by (nonlinear_arith)
                    requires
                        0 <= mid <= 0x100_0000_0000i128,
                ;
            }
            if mid * mid <= x {
                lo = mid;
            } else {
                hi = mid;
            }
        }
        proof {
            assert((lo + 1) * (lo + 1) >= hi * hi) by (nonlinear_arith)
                requires
                    lo + 1 >= hi >= 0,
            ;
            assert(is_sqrt_of(sat64(a as int), lo as int));
            lemma_sqrt_unique(sat64(a as int), fx_sqrt_s(a as int), lo as int);
        }
        lo as i64
    }
}

/// Fixed-point exponentiation with a natural exponent.
pub fn fx_pow(b: i64, n: u32) -> (r: i64)
    ensures
        r == fx_pow_s(b as int, n as nat),
{
    let mut acc: i64 = FX_ONE;
    let mut i: u32 = 0;
    while i < n
        invariant
            0 <= i <= n,
            acc == fx_pow_s(b as int, i as nat),
        decreases n - i,
    {
        proof {
            reveal_with_fuel(fx_pow_s, 2);
        }
        acc = fx_mul(b, acc);
        i = i + 1;
        proof {
            assert(fx_pow_s(b as int, i as nat) == fx_mul_s(b as int, fx_pow_s(b as int, (i - 1) as nat)));
        }
    }
    acc
}

/// The floor of a scalar, as an unscaled integer between -2^46 and
/// 2^46.
pub fn fx_floor(a: i64) -> (r: i64)
    ensures
        r == fx_floor_s(a as int),
        -0x4000_0000_0000 <= r <= 0x4000_0000_0000,
{
    let xa = fx_clamp(a);
    proof {
        vstd::arithmetic::div_mod::lemma_fundamental_div_mod(xa as int, 65536);
        vstd::arithmetic::div_mod::lemma_mod_bound(xa as int, 65536);
        let q = xa as int / 65536;
        let rm = xa as int % 65536;
        assert(-0x4000_0000_0000 <= q <= 0x4000_0000_0000) by (nonlinear_arith)
            requires
                xa as int == 65536 * q + rm,
                0 <= rm < 65536,
                -0x4000_0000_0000_0000 <= xa as int <= 0x4000_0000_0000_0000,
        ;
    }
    xa.checked_div_euclid(FX_ONE).unwrap()
}

/// The smaller of two scalars.
pub fn fx_min(a: i64, b: i64) -> (r: i64)
    ensures
        r == if a <= b { a as int } else { b as int },
{
    if a <= b {
        a
    } else {
        b
    }
}

/// The larger of two scalars.
pub fn fx_max(a: i64, b: i64) -> (r: i64)
    ensures
        r == if a >= b { a as int } else { b as int },
{
    if a >= b {
        a
    } else {
        b
    }
}

/// The absolute value of a clamped scalar.
pub fn fx_abs(a: i64) -> (r: i64)
    ensures
        r == if sat64(a as int) >= 0 { sat64(a as int) } else { -sat64(a as int) },
{
    let xa = fx_clamp(a);
    if xa >= 0 {
        xa
    } else {
        -xa
    }
}

} // verus!
