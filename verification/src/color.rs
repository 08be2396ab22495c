//! RGB colors with three 8-bit channels, the blend operators of the
//! shading stage, and packing into one 32-bit word for the framebuffer.
//! Every operator works channel-wise and saturates into `[0, 255]`.

use vstd::prelude::*;
use vstd::arithmetic::div_mod::{lemma_div_multiples_vanish, lemma_div_pos_is_pos};
use vstd::arithmetic::mul::{
    lemma_mul_inequality,
    lemma_mul_is_commutative,
    lemma_mul_nonnegative,
};
use crate::fixed::FX_ONE;

verus! {

#[derive(Clone, Copy, PartialEq, Eq, Structural, Debug)]
pub struct Color {
    pub r: u8,
    pub g: u8,
    pub b: u8,
}

/// Saturate an arbitrary integer into one channel.
pub open spec fn sat_channel(x: int) -> u8 {
    if x > 255 {
        255u8
    } else if x < 0 {
        0u8
    } else {
        x as u8
    }
}

/// One channel of a linear interpolation: start channel plus the
/// scaled difference, floored. At `t == 0` this is `a`; at
/// `t == FX_ONE` it is `b`.
pub open spec fn lerp_channel(a: u8, b: u8, t: int) -> int {
    a + ((b - a) * t) / (FX_ONE as int)
}

pub open spec fn color_lerp(a: Color, b: Color, t: int) -> Color {
    Color {
        r: sat_channel(lerp_channel(a.r, b.r, t)),
        g: sat_channel(lerp_channel(a.g, b.g, t)),
        b: sat_channel(lerp_channel(a.b, b.b, t)),
    }
}

/// Scaling by a non-negative fixed-point factor, per channel.
pub open spec fn color_scale(c: Color, t: int) -> Color {
    Color {
        r: sat_channel((c.r * t) / (FX_ONE as int)),
        g: sat_channel((c.g * t) / (FX_ONE as int)),
        b: sat_channel((c.b * t) / (FX_ONE as int)),
    }
}

/// The blended layer replaces the base, channel by channel.
pub open spec fn color_blend_normal(a: Color, b: Color) -> Color {
    b
}

pub open spec fn color_blend_multiply(a: Color, b: Color) -> Color {
    Color {
        r: sat_channel((a.r * b.r) / 255),
        g: sat_channel((a.g * b.g) / 255),
        b: sat_channel((a.b * b.b) / 255),
    }
}

pub open spec fn color_blend_add(a: Color, b: Color) -> Color {
    Color {
        r: sat_channel(a.r + b.r),
        g: sat_channel(a.g + b.g),
        b: sat_channel(a.b + b.b),
    }
}

pub open spec fn color_blend_subtract(a: Color, b: Color) -> Color {
    Color {
        r: sat_channel(a.r - b.r),
        g: sat_channel(a.g - b.g),
        b: sat_channel(a.b - b.b),
    }
}

/// The packed form stored in the framebuffer: red in the highest of
/// the three used bytes, then green, then blue.
pub open spec fn color_pack(c: Color) -> u32 {
    (c.r * 0x10000 + c.g * 0x100 + c.b) as u32
}

impl Color {
    pub fn new(r: u8, g: u8, b: u8) -> (c: Color)
        ensures
            c == (Color { r, g, b }),
    {
        Color { r, g, b }
    }

    pub fn get_r(&self) -> (v: u8)
        ensures
            v == self.r,
    {
        self.r
    }

    pub fn get_g(&self) -> (v: u8)
        ensures
            v == self.g,
    {
        self.g
    }

    pub fn get_b(&self) -> (v: u8)
        ensures
            v == self.b,
    {
        self.b
    }

    pub fn is_black(&self) -> (black: bool)
        ensures
            black == (self.r == 0 && self.g == 0 && self.b == 0),
    {
        self.r == 0 && self.g == 0 && self.b == 0
    }

    pub fn to_hex(&self) -> (packed: u32)
        ensures
            packed == color_pack(*self),
    {
        (self.r as u32) * 0x10000 + (self.g as u32) * 0x100 + (self.b as u32)
    }

    /// Linear interpolation from `self` toward `other` by the
    /// fixed-point fraction `t` of one unit.
    pub fn lerp(&self, other: &Color, t: i64) -> (c: Color)
        requires
            0 <= t <= FX_ONE,
        ensures
            c == color_lerp(*self, *other, t as int),
    {
        Color {
            r: lerp_channel_exec(self.r, other.r, t),
            g: lerp_channel_exec(self.g, other.g, t),
            b: lerp_channel_exec(self.b, other.b, t),
        }
    }

    /// Intensity scaling by a non-negative fixed-point factor,
    /// saturating at the channel bound.
    pub fn scale(&self, t: i64) -> (c: Color)
        requires
            t >= 0,
        ensures
            c == color_scale(*self, t as int),
    {
        Color {
            r: scale_channel_exec(self.r, t),
            g: scale_channel_exec(self.g, t),
            b: scale_channel_exec(self.b, t),
        }
    }

    pub fn blend_normal(&self, other: &Color) -> (c: Color)
        ensures
            c == color_blend_normal(*self, *other),
    {
        *other
    }

    pub fn blend_multiply(&self, other: &Color) -> (c: Color)
        ensures
            c == color_blend_multiply(*self, *other),
    {
        proof {
            lemma_mul_bounds_255(self.r as int, other.r as int);
            lemma_mul_bounds_255(self.g as int, other.g as int);
            lemma_mul_bounds_255(self.b as int, other.b as int);
        }
        let r = ((self.r as u32) * (other.r as u32) / 255) as u8;
        let g = ((self.g as u32) * (other.g as u32) / 255) as u8;
        let b = ((self.b as u32) * (other.b as u32) / 255) as u8;
        Color { r, g, b }
    }

    pub fn blend_add(&self, other: &Color) -> (c: Color)
        ensures
            c == color_blend_add(*self, *other),
    {
        let r = self.r as u32 + other.r as u32;
        let g = self.g as u32 + other.g as u32;
        let b = self.b as u32 + other.b as u32;
        Color {
            r: if r > 255 {
                255
            } else {
                r as u8
            },
            g: if g > 255 {
                255
            } else {
                g as u8
            },
            b: if b > 255 {
                255
            } else {
                b as u8
            },
        }
    }

    pub fn blend_subtract(&self, other: &Color) -> (c: Color)
        ensures
            c == color_blend_subtract(*self, *other),
    {
        Color {
            r: if self.r >= other.r {
                self.r - other.r
            } else {
                0
            },
            g: if self.g >= other.g {
                self.g - other.g
            } else {
                0
            },
            b: if self.b >= other.b {
                self.b - other.b
            } else {
                0
            },
        }
    }
}

/// A product of two channels stays within `0..=255 * 255`.
proof fn lemma_mul_bounds_255(a: int, b: int)
    requires
        0 <= a <= 255,
        0 <= b <= 255,
    ensures
        0 <= a * b <= 255 * 255,
        (a * b) / 255 <= 255,
        (a * b) / 255 >= 0,
{
    lemma_mul_nonnegative(a, b);
    lemma_mul_inequality(a, 255, b);
    lemma_mul_is_commutative(255, b);
    lemma_mul_inequality(b, 255, 255);
    assert((a * b) / 255 <= (255 * 255) / 255) by {
        vstd::arithmetic::div_mod::lemma_div_is_ordered(a * b, 65025int, 255);
    }
    lemma_div_pos_is_pos(a * b, 255);
}

fn lerp_channel_exec(a: u8, b: u8, t: i64) -> (r: u8)
    requires
        0 <= t <= FX_ONE,
    ensures
        r == sat_channel(lerp_channel(a, b, t as int)),
{
    let d: i64 = b as i64 - a as i64;
    proof {
        crate::fixed::lemma_mul_bounds(d as int, t as int, FX_ONE as int);
        lemma_scaled_diff_bounds(d as int, t as int);
    }
    let q = crate::fixed::floor_div_i128((d as i128) * (t as i128), FX_ONE as i128);
    let v: i64 = a as i64 + q as i64;
    v as u8
}

/// Scaling a channel difference by a fraction of one unit keeps the
/// floored result between the difference and zero.
proof fn lemma_scaled_diff_bounds(d: int, t: int)
    requires
        -255 <= d <= 255,
        0 <= t <= FX_ONE,
    ensures
        if d >= 0 {
            0 <= (d * t) / (FX_ONE as int) <= d
        } else {
            d <= (d * t) / (FX_ONE as int) <= 0
        },
{
    let one = FX_ONE as int;
    if d >= 0 {
        lemma_mul_nonnegative(d, t);
        lemma_div_pos_is_pos(d * t, one);
        lemma_mul_inequality(t, one, d);
        lemma_mul_is_commutative(t, d);
        lemma_mul_is_commutative(one, d);
        vstd::arithmetic::div_mod::lemma_div_is_ordered(d * t, d * one, one);
        lemma_div_multiples_vanish(d, one);
    } else {
        lemma_mul_inequality(t, one, -d);
        lemma_mul_is_commutative(t, -d);
        lemma_mul_is_commutative(one, -d);
        assert(d * t == -((-d) * t)) by (nonlinear_arith);
        assert(d * one == -((-d) * one)) by (nonlinear_arith);
        vstd::arithmetic::div_mod::lemma_div_is_ordered(d * one, d * t, one);
        lemma_div_multiples_vanish(d, one);
        lemma_mul_nonnegative(-d, t);
        vstd::arithmetic::div_mod::lemma_div_is_ordered(d * t, 0, one);
    }
}

fn scale_channel_exec(c: u8, t: i64) -> (r: u8)
    requires
        t >= 0,
    ensures
        r == sat_channel((c * t) / (FX_ONE as int)),
{
    proof {
        crate::fixed::lemma_mul_bounds(c as int, t as int, i64::MAX as int);
    }
    let p: u128 = (c as u128) * (t as u128);
    let q = p / (FX_ONE as u128);
    proof {
        lemma_div_nonneg_bounded(p as int, FX_ONE as int);
    }
    if q > 255 {
        255
    } else {
        q as u8
    }
}

/// Division of a non-negative value by a positive one is non-negative
/// and no larger than the dividend.
proof fn lemma_div_nonneg_bounded(x: int, d: int)
    requires
        0 <= x,
        0 < d,
    ensures
        0 <= x / d <= x,
{
    lemma_div_pos_is_pos(x, d);
    vstd::arithmetic::div_mod::lemma_div_is_ordered_by_denominator(x, 1, d);
    vstd::arithmetic::div_mod::lemma_div_basics(x);
}

/// `lerp` at zero returns the first color unchanged.
pub proof fn lemma_lerp_zero(a: Color, b: Color)
    ensures
        color_lerp(a, b, 0) == a,
{
    lemma_lerp_zero_channel(a.r, b.r);
    lemma_lerp_zero_channel(a.g, b.g);
    lemma_lerp_zero_channel(a.b, b.b);
}

proof fn lemma_lerp_zero_channel(x: u8, y: u8)
    ensures
        sat_channel(lerp_channel(x, y, 0)) == x,
{
    assert((y - x) * 0 == 0) by (nonlinear_arith);
    assert(0int / (FX_ONE as int) == 0) by {
        vstd::arithmetic::div_mod::lemma_div_of0(FX_ONE as int);
    }
}

/// `lerp` at one full unit returns the second color.
pub proof fn lemma_lerp_one(a: Color, b: Color)
    ensures
        color_lerp(a, b, FX_ONE as int) == b,
{
    lemma_lerp_one_channel(a.r, b.r);
    lemma_lerp_one_channel(a.g, b.g);
    lemma_lerp_one_channel(a.b, b.b);
}

proof fn lemma_lerp_one_channel(x: u8, y: u8)
    ensures
        sat_channel(lerp_channel(x, y, FX_ONE as int)) == y,
{
    lemma_div_multiples_vanish(y - x, FX_ONE as int);
}

/// Every blend result saturates its channels into `[0, 255]`: the
/// saturation function never leaves that range, so neither does any
/// channel a blend operator produces.
pub proof fn lemma_blend_saturates(x: int)
    ensures
        0 <= sat_channel(x) <= 255,
{
}

/// The additive blend does not depend on the order of its operands.
pub proof fn lemma_blend_add_commutes(a: Color, b: Color)
    ensures
        color_blend_add(a, b) == color_blend_add(b, a),
{
}

/// The multiplicative blend does not depend on the order of its
/// operands.
pub proof fn lemma_blend_multiply_commutes(a: Color, b: Color)
    ensures
        color_blend_multiply(a, b) == color_blend_multiply(b, a),
{
    lemma_mul_is_commutative(a.r as int, b.r as int);
    lemma_mul_is_commutative(a.g as int, b.g as int);
    lemma_mul_is_commutative(a.b as int, b.b as int);
}

} // verus!
