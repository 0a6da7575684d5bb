//! Linear RGB color algebra and the gamma-encoded byte conversion.
//!
//! Colors are fixed-point triples; channel values may exceed one during
//! shading and are only clamped when a pixel is quantized.  The byte
//! conversion applies a power 5/11 (the reciprocal of gamma 2.2 = 11/5)
//! through an exact integer predicate: the result is the largest byte
//! `y` with `(y/255)^11 <= (x8/256)^5`, where `x8` is the channel
//! rounded to eight fractional bits.

use vstd::prelude::*;
use vstd::arithmetic::power::pow;

use crate::fx::{FX_ONE, fx_add, fx_add_s, fx_mul, fx_mul_s, fx_sub, fx_sub_s};

verus! {

/// A linear RGB color.
#[derive(Clone, Copy, Debug, PartialEq, Eq, Structural)]
pub struct Color {
    pub r: i64,
    pub g: i64,
    pub b: i64,
}

/// A quantized, gamma-encoded pixel.
#[derive(Clone, Copy, Debug, PartialEq, Eq, Structural, Default)]
pub struct ColorRgbByte {
    pub r: u8,
    pub g: u8,
    pub b: u8,
}

/// Build a color from raw fixed-point channels.
pub fn color(r: i64, g: i64, b: i64) -> (res: Color)
    ensures
        res == (Color { r, g, b }),
{
    Color { r, g, b }
}

/// The absence of light.
pub open spec fn black_s() -> Color {
    Color { r: 0, g: 0, b: 0 }
}

/// Full white.
pub open spec fn white_s() -> Color {
    Color { r: FX_ONE, g: FX_ONE, b: FX_ONE }
}

/// The absence of light.
pub fn black() -> (res: Color)
    ensures
        res == black_s(),
{
    Color { r: 0, g: 0, b: 0 }
}

/// Full white.
pub fn white() -> (res: Color)
    ensures
        res == white_s(),
{
    Color { r: FX_ONE, g: FX_ONE, b: FX_ONE }
}

impl Color {
    /// Channel-wise sum, as a spec value.
    pub open spec fn plus_s(self, o: Color) -> Color {
        Color {
            r: fx_add_s(self.r as int, o.r as int) as i64,
            g: fx_add_s(self.g as int, o.g as int) as i64,
            b: fx_add_s(self.b as int, o.b as int) as i64,
        }
    }

    /// Channel-wise difference, as a spec value.
    pub open spec fn minus_s(self, o: Color) -> Color {
        Color {
            r: fx_sub_s(self.r as int, o.r as int) as i64,
            g: fx_sub_s(self.g as int, o.g as int) as i64,
            b: fx_sub_s(self.b as int, o.b as int) as i64,
        }
    }

    /// The Hadamard (channel-wise) product, as a spec value.
    pub open spec fn times_s(self, o: Color) -> Color {
        Color {
            r: fx_mul_s(self.r as int, o.r as int) as i64,
            g: fx_mul_s(self.g as int, o.g as int) as i64,
            b: fx_mul_s(self.b as int, o.b as int) as i64,
        }
    }

    /// The color scaled by a scalar, as a spec value.
    pub open spec fn scale_s(self, s: int) -> Color {
        Color {
            r: fx_mul_s(self.r as int, s) as i64,
            g: fx_mul_s(self.g as int, s) as i64,
            b: fx_mul_s(self.b as int, s) as i64,
        }
    }

    /// Channel-wise sum.
    pub fn plus(&self, o: &Color) -> (res: Color)
        ensures
            res == self.plus_s(*o),
    {
        Color { r: fx_add(self.r, o.r), g: fx_add(self.g, o.g), b: fx_add(self.b, o.b) }
    }

    /// Channel-wise difference.
    pub fn minus(&self, o: &Color) -> (res: Color)
        ensures
            res == self.minus_s(*o),
    {
        Color { r: fx_sub(self.r, o.r), g: fx_sub(self.g, o.g), b: fx_sub(self.b, o.b) }
    }

    /// The Hadamard (channel-wise) product.
    pub fn times(&self, o: &Color) -> (res: Color)
        ensures
            res == self.times_s(*o),
    {
        Color { r: fx_mul(self.r, o.r), g: fx_mul(self.g, o.g), b: fx_mul(self.b, o.b) }
    }

    /// The color scaled by a scalar.
    pub fn scale(&self, s: i64) -> (res: Color)
        ensures
            res == self.scale_s(s as int),
    {
        Color { r: fx_mul(self.r, s), g: fx_mul(self.g, s), b: fx_mul(self.b, s) }
    }

    /// Quantize to a gamma-encoded byte triple.
    pub fn to_byte(&self) -> (res: ColorRgbByte)
        ensures
            res.r == gamma_byte_s(self.r as int),
            res.g == gamma_byte_s(self.g as int),
            res.b == gamma_byte_s(self.b as int),
    {
        ColorRgbByte { r: gamma_byte(self.r), g: gamma_byte(self.g), b: gamma_byte(self.b) }
    }
}

/// A channel clamped into `[0, 1]`.
pub open spec fn clamp_unit_s(x: int) -> int {
    if x < 0 {
        0
    } else if x > FX_ONE {
        FX_ONE as int
    } else {
        x
    }
}

/// A clamped channel rounded to eight fractional bits: an integer in
/// `[0, 256]`.
pub open spec fn gamma_in_s(x: int) -> int {
    (clamp_unit_s(x) + 128) / 256
}

/// Whether byte `y` still lies below the gamma curve at input `x8`:
/// `(y/255)^11 <= (x8/256)^5`, cross-multiplied to integers.
pub open spec fn gamma_cond(y: int, x8: int) -> bool {
    pow(y, 11) * 0x100_0000_0000 <= pow(255, 11) * pow(x8, 5)
}

/// `y` is the largest byte satisfying the gamma predicate at `x8`.
pub open spec fn is_gamma_byte(x8: int, y: int) -> bool {
    0 <= y <= 255 && gamma_cond(y, x8) && (y == 255 || !gamma_cond(y + 1, x8))
}

/// The gamma-encoded byte of a channel, as a function.
pub open spec fn gamma_byte_s(x: int) -> int {
    choose|y: int| is_gamma_byte(gamma_in_s(x), y)
}

/// Raising to a power keeps the order of non-negative bases.
pub proof fn lemma_pow_base_mono(a: int, b: int, e: nat)
    requires
        0 <= a <= b,
    ensures
        0 <= pow(a, e) <= pow(b, e),
    decreases e,
{
    reveal(pow);
    if e == 0 {
    } else {
        lemma_pow_base_mono(a, b, (e - 1) as nat);
        assert(pow(a, e) == a * pow(a, (e - 1) as nat));
        assert(pow(b, e) == b * pow(b, (e - 1) as nat));
        assert(0 <= a * pow(a, (e - 1) as nat) <= b * pow(b, (e - 1) as nat)) by (nonlinear_arith)
            requires
                0 <= a <= b,
                0 <= pow(a, (e - 1) as nat) <= pow(b, (e - 1) as nat),
        ;
    }
}


/// The product of two non-negative bounded factors is bounded by the
/// product of the bounds.
pub proof fn lemma_mul_le(a: int, b: int, ab: int, bb: int)
    requires
        0 <= a <= ab,
        0 <= b <= bb,
    ensures
        0 <= a * b <= ab * bb,
{
    assert(0 <= a * b <= ab * bb) by (nonlinear_arith)
        requires
            0 <= a <= ab,
            0 <= b <= bb,
    ;
}

/// The gamma byte is unique: two bytes that are both largest below
/// the curve coincide.
pub proof fn lemma_gamma_byte_unique(x8: int, y1: int, y2: int)
    requires
        is_gamma_byte(x8, y1),
        is_gamma_byte(x8, y2),
    ensures
        y1 == y2,
{
    if y1 < y2 {
        lemma_pow_base_mono(y1 + 1, y2, 11);
        assert(pow(y1 + 1, 11) * 0x100_0000_0000 <= pow(y2, 11) * 0x100_0000_0000)
            by (nonlinear_arith)
            requires
                pow(y1 + 1, 11) <= pow(y2, 11),
        ;
    } else if y2 < y1 {
        lemma_pow_base_mono(y2 + 1, y1, 11);
        assert(pow(y2 + 1, 11) * 0x100_0000_0000 <= pow(y1, 11) * 0x100_0000_0000)
            by (nonlinear_arith)
            requires
                pow(y2 + 1, 11) <= pow(y1, 11),
        ;
    }
}

fn pow11_u128(y: u64) -> (res: u128)
    requires
        y <= 255,
    ensures
        res == pow(y as int, 11),
        res <= 296443535898840969287109375,
{
    proof {
        vstd::arithmetic::power::lemma_pow1(y as int);
        vstd::arithmetic::power::lemma_pow_adds(y as int, 1, 1);
        vstd::arithmetic::power::lemma_pow_adds(y as int, 2, 2);
        vstd::arithmetic::power::lemma_pow_adds(y as int, 4, 1);
        vstd::arithmetic::power::lemma_pow_adds(y as int, 5, 5);
        vstd::arithmetic::power::lemma_pow_adds(y as int, 10, 1);
    }
    let y1: u128 = y as u128;
    proof {
        lemma_mul_le(y1 as int, y1 as int, 255, 255);
    }
    let y2: u128 = y1 * y1;
    proof {
        assert(y2 == pow(y as int, 2));
        lemma_mul_le(y2 as int, y2 as int, 65025, 65025);
    }
    let y4: u128 = y2 * y2;
    proof {
        assert(y4 == pow(y as int, 4));
        lemma_mul_le(y4 as int, y1 as int, 4228250625, 255);
    }
    let y5: u128 = y4 * y1;
    proof {
        assert(y5 == pow(y as int, 5));
        lemma_mul_le(y5 as int, y5 as int, 1078203909375, 1078203909375);
    }
    let y10: u128 = y5 * y5;
    proof {
        assert(y10 == pow(y as int, 10));
        lemma_mul_le(y10 as int, y1 as int, 1162523670191533212890625, 255);
    }
    let y11: u128 = y10 * y1;
    proof {
        assert(y11 == pow(y as int, 11));
    }
    y11
}

fn pow5_u128(x: u64) -> (res: u128)
    requires
        x <= 256,
    ensures
        res == pow(x as int, 5),
        res <= 0x100_0000_0000,
{
    proof {
        vstd::arithmetic::power::lemma_pow1(x as int);
        vstd::arithmetic::power::lemma_pow_adds(x as int, 1, 1);
        vstd::arithmetic::power::lemma_pow_adds(x as int, 2, 2);
        vstd::arithmetic::power::lemma_pow_adds(x as int, 4, 1);
    }
    let x1: u128 = x as u128;
    proof {
        lemma_mul_le(x1 as int, x1 as int, 256, 256);
    }
    let x2: u128 = x1 * x1;
    proof {
        assert(x2 == pow(x as int, 2));
        lemma_mul_le(x2 as int, x2 as int, 65536, 65536);
    }
    let x4: u128 = x2 * x2;
    proof {
        assert(x4 == pow(x as int, 4));
        lemma_mul_le(x4 as int, x1 as int, 4294967296, 256);
    }
    let x5: u128 = x4 * x1;
    proof {
        assert(x5 == pow(x as int, 5));
    }
    x5
}

/// Gamma-encode one channel: the largest byte below the gamma curve.
pub fn gamma_byte(x: i64) -> (res: u8)
    ensures
        res == gamma_byte_s(x as int),
        is_gamma_byte(gamma_in_s(x as int), res as int),
{
    let xc: i64 = if x < 0 {
        0
    } else if x > FX_ONE {
        FX_ONE
    } else {
        x
    };
    let x8: u64 = ((xc as u64) + 128) / 256;
    proof {
        assert(x8 as int == gamma_in_s(x as int));
    }
    let t = pow5_u128(x8);
    let c = pow11_u128(255);
    proof {
        lemma_mul_le(c as int, t as int, 296443535898840969287109375, 0x100_0000_0000);
    }
    let rhs: u128 = c * t;
    let mut y: u8 = 0;
    let mut done: bool = false;
    proof {
        vstd::arithmetic::power::lemma0_pow(11);
        assert(pow(255, 11) >= 0 && pow(x8 as int, 5) >= 0) by {
            lemma_pow_base_mono(0, 255, 11);
            lemma_pow_base_mono(0, x8 as int, 5);
        }
        assert(pow(0, 11) * 0x100_0000_0000 <= pow(255, 11) * pow(x8 as int, 5)) by {
            lemma_mul_le(pow(255, 11), pow(x8 as int, 5), pow(255, 11), pow(x8 as int, 5));
        }
    }
    while y < 255 && !done
        invariant
            0 <= y <= 255,
            gamma_cond(y as int, x8 as int),
            done ==> !gamma_cond(y as int + 1, x8 as int),
            rhs == pow(255, 11) * pow(x8 as int, 5),
        decreases 255 - y + (if done { 0int } else { 1int }),
    {
        let p = pow11_u128((y as u64) + 1);
        proof {
            lemma_mul_le(p as int, 0x100_0000_0000, 296443535898840969287109375, 0x100_0000_0000);
        }
        if p * 0x100_0000_0000u128 <= rhs {
            y = y + 1;
        } else {
            done = true;
        }
    }
    proof {
        assert(is_gamma_byte(x8 as int, y as int));
        assert(is_gamma_byte(gamma_in_s(x as int), gamma_byte_s(x as int))) by {
            assert(exists|w: int| is_gamma_byte(gamma_in_s(x as int), w)) by {
                assert(is_gamma_byte(gamma_in_s(x as int), y as int));
            }
        }
        lemma_gamma_byte_unique(x8 as int, gamma_byte_s(x as int), y as int);
    }
    y
}

} // verus!
