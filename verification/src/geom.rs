//! Fixed-point vectors and matrices: the linear algebra of the vertex
//! transform stage. Matrix application saturates each component into
//! the working range, so chained transforms stay within bounds.

use vstd::prelude::*;
use crate::fixed::{fx_clamp, fx_clamped, fx_div, fx_div_spec, fx_mul, fx_mul_spec, FX_ONE};

verus! {

#[derive(Clone, Copy, PartialEq, Eq, Structural, Debug)]
pub struct Fx2 {
    pub x: i64,
    pub y: i64,
}

#[derive(Clone, Copy, PartialEq, Eq, Structural, Debug)]
pub struct Fx3 {
    pub x: i64,
    pub y: i64,
    pub z: i64,
}

#[derive(Clone, Copy, PartialEq, Eq, Structural, Debug)]
pub struct Fx4 {
    pub x: i64,
    pub y: i64,
    pub z: i64,
    pub w: i64,
}

/// A 3-by-3 matrix, row major: `mRC` is row `R`, column `C`.
#[derive(Clone, Copy, PartialEq, Eq, Structural, Debug)]
pub struct Mat3 {
    pub m00: i64,
    pub m01: i64,
    pub m02: i64,
    pub m10: i64,
    pub m11: i64,
    pub m12: i64,
    pub m20: i64,
    pub m21: i64,
    pub m22: i64,
}

/// A 4-by-4 matrix, row major: `mRC` is row `R`, column `C`.
#[derive(Clone, Copy, PartialEq, Eq, Structural, Debug)]
pub struct Mat4 {
    pub m00: i64,
    pub m01: i64,
    pub m02: i64,
    pub m03: i64,
    pub m10: i64,
    pub m11: i64,
    pub m12: i64,
    pub m13: i64,
    pub m20: i64,
    pub m21: i64,
    pub m22: i64,
    pub m23: i64,
    pub m30: i64,
    pub m31: i64,
    pub m32: i64,
    pub m33: i64,
}

pub open spec fn mat3_identity_spec() -> Mat3 {
    Mat3 {
        m00: FX_ONE,
        m01: 0,
        m02: 0,
        m10: 0,
        m11: FX_ONE,
        m12: 0,
        m20: 0,
        m21: 0,
        m22: FX_ONE,
    }
}

pub open spec fn mat4_identity_spec() -> Mat4 {
    Mat4 {
        m00: FX_ONE,
        m01: 0,
        m02: 0,
        m03: 0,
        m10: 0,
        m11: FX_ONE,
        m12: 0,
        m13: 0,
        m20: 0,
        m21: 0,
        m22: FX_ONE,
        m23: 0,
        m30: 0,
        m31: 0,
        m32: 0,
        m33: FX_ONE,
    }
}

/// One row of a matrix application: the saturated sum of the four
/// fixed-point products.
pub open spec fn row4_spec(a: int, b: int, c: int, d: int, v: Fx4) -> i64 {
    fx_clamp(
        fx_mul_spec(a, v.x as int) + fx_mul_spec(b, v.y as int) + fx_mul_spec(c, v.z as int)
            + fx_mul_spec(d, v.w as int),
    ) as i64
}

pub open spec fn mat4_apply_spec(m: Mat4, v: Fx4) -> Fx4 {
    Fx4 {
        x: row4_spec(m.m00 as int, m.m01 as int, m.m02 as int, m.m03 as int, v),
        y: row4_spec(m.m10 as int, m.m11 as int, m.m12 as int, m.m13 as int, v),
        z: row4_spec(m.m20 as int, m.m21 as int, m.m22 as int, m.m23 as int, v),
        w: row4_spec(m.m30 as int, m.m31 as int, m.m32 as int, m.m33 as int, v),
    }
}

pub open spec fn row3_spec(a: int, b: int, c: int, v: Fx3) -> i64 {
    fx_clamp(
        fx_mul_spec(a, v.x as int) + fx_mul_spec(b, v.y as int) + fx_mul_spec(c, v.z as int),
    ) as i64
}

pub open spec fn mat3_apply_spec(m: Mat3, v: Fx3) -> Fx3 {
    Fx3 {
        x: row3_spec(m.m00 as int, m.m01 as int, m.m02 as int, v),
        y: row3_spec(m.m10 as int, m.m11 as int, m.m12 as int, v),
        z: row3_spec(m.m20 as int, m.m21 as int, m.m22 as int, v),
    }
}

/// The upper-left 3-by-3 block: the linear part of a transform.
pub open spec fn mat4_to_mat3_spec(m: Mat4) -> Mat3 {
    Mat3 {
        m00: m.m00,
        m01: m.m01,
        m02: m.m02,
        m10: m.m10,
        m11: m.m11,
        m12: m.m12,
        m20: m.m20,
        m21: m.m21,
        m22: m.m22,
    }
}

pub open spec fn mat3_transpose_spec(m: Mat3) -> Mat3 {
    Mat3 {
        m00: m.m00,
        m01: m.m10,
        m02: m.m20,
        m10: m.m01,
        m11: m.m11,
        m12: m.m21,
        m20: m.m02,
        m21: m.m12,
        m22: m.m22,
    }
}

/// The determinant in fixed-point arithmetic: cofactor expansion
/// along the first row, every product scaled and floored.
pub open spec fn mat3_det_spec(m: Mat3) -> int {
    fx_mul_spec(
        m.m00 as int,
        fx_mul_spec(m.m11 as int, m.m22 as int) - fx_mul_spec(m.m12 as int, m.m21 as int),
    ) + fx_mul_spec(
        m.m01 as int,
        fx_mul_spec(m.m12 as int, m.m20 as int) - fx_mul_spec(m.m10 as int, m.m22 as int),
    ) + fx_mul_spec(
        m.m02 as int,
        fx_mul_spec(m.m10 as int, m.m21 as int) - fx_mul_spec(m.m11 as int, m.m20 as int),
    )
}

/// The inverse as adjugate over determinant, entry by entry; the
/// identity when the fixed-point determinant vanishes.
pub open spec fn mat3_inverse_or_identity_spec(m: Mat3) -> Mat3 {
    let det = mat3_det_spec(m);
    if det == 0 {
        mat3_identity_spec()
    } else {
        Mat3 {
            m00: fx_div_spec(
                fx_mul_spec(m.m11 as int, m.m22 as int) - fx_mul_spec(m.m12 as int, m.m21 as int),
                det,
            ) as i64,
            m01: fx_div_spec(
                fx_mul_spec(m.m02 as int, m.m21 as int) - fx_mul_spec(m.m01 as int, m.m22 as int),
                det,
            ) as i64,
            m02: fx_div_spec(
                fx_mul_spec(m.m01 as int, m.m12 as int) - fx_mul_spec(m.m02 as int, m.m11 as int),
                det,
            ) as i64,
            m10: fx_div_spec(
                fx_mul_spec(m.m12 as int, m.m20 as int) - fx_mul_spec(m.m10 as int, m.m22 as int),
                det,
            ) as i64,
            m11: fx_div_spec(
                fx_mul_spec(m.m00 as int, m.m22 as int) - fx_mul_spec(m.m02 as int, m.m20 as int),
                det,
            ) as i64,
            m12: fx_div_spec(
                fx_mul_spec(m.m02 as int, m.m10 as int) - fx_mul_spec(m.m00 as int, m.m12 as int),
                det,
            ) as i64,
            m20: fx_div_spec(
                fx_mul_spec(m.m10 as int, m.m21 as int) - fx_mul_spec(m.m11 as int, m.m20 as int),
                det,
            ) as i64,
            m21: fx_div_spec(
                fx_mul_spec(m.m01 as int, m.m20 as int) - fx_mul_spec(m.m00 as int, m.m21 as int),
                det,
            ) as i64,
            m22: fx_div_spec(
                fx_mul_spec(m.m00 as int, m.m11 as int) - fx_mul_spec(m.m01 as int, m.m10 as int),
                det,
            ) as i64,
        }
    }
}

pub fn mat3_identity() -> (r: Mat3)
    ensures
        r == mat3_identity_spec(),
{
    Mat3 { m00: FX_ONE, m01: 0, m02: 0, m10: 0, m11: FX_ONE, m12: 0, m20: 0, m21: 0, m22: FX_ONE }
}

pub fn mat4_identity() -> (r: Mat4)
    ensures
        r == mat4_identity_spec(),
{
    Mat4 {
        m00: FX_ONE,
        m01: 0,
        m02: 0,
        m03: 0,
        m10: 0,
        m11: FX_ONE,
        m12: 0,
        m13: 0,
        m20: 0,
        m21: 0,
        m22: FX_ONE,
        m23: 0,
        m30: 0,
        m31: 0,
        m32: 0,
        m33: FX_ONE,
    }
}

fn row4(a: i64, b: i64, c: i64, d: i64, v: &Fx4) -> (r: i64)
    ensures
        r == row4_spec(a as int, b as int, c as int, d as int, *v),
{
    fx_clamped(fx_mul(a, v.x) + fx_mul(b, v.y) + fx_mul(c, v.z) + fx_mul(d, v.w))
}

pub fn mat4_apply(m: &Mat4, v: &Fx4) -> (r: Fx4)
    ensures
        r == mat4_apply_spec(*m, *v),
{
    Fx4 {
        x: row4(m.m00, m.m01, m.m02, m.m03, v),
        y: row4(m.m10, m.m11, m.m12, m.m13, v),
        z: row4(m.m20, m.m21, m.m22, m.m23, v),
        w: row4(m.m30, m.m31, m.m32, m.m33, v),
    }
}

fn row3(a: i64, b: i64, c: i64, v: &Fx3) -> (r: i64)
    ensures
        r == row3_spec(a as int, b as int, c as int, *v),
{
    fx_clamped(fx_mul(a, v.x) + fx_mul(b, v.y) + fx_mul(c, v.z))
}

pub fn mat3_apply(m: &Mat3, v: &Fx3) -> (r: Fx3)
    ensures
        r == mat3_apply_spec(*m, *v),
{
    Fx3 {
        x: row3(m.m00, m.m01, m.m02, v),
        y: row3(m.m10, m.m11, m.m12, v),
        z: row3(m.m20, m.m21, m.m22, v),
    }
}

pub fn mat4_to_mat3(m: &Mat4) -> (r: Mat3)
    ensures
        r == mat4_to_mat3_spec(*m),
{
    Mat3 {
        m00: m.m00,
        m01: m.m01,
        m02: m.m02,
        m10: m.m10,
        m11: m.m11,
        m12: m.m12,
        m20: m.m20,
        m21: m.m21,
        m22: m.m22,
    }
}

pub fn mat3_transpose(m: &Mat3) -> (r: Mat3)
    ensures
        r == mat3_transpose_spec(*m),
{
    Mat3 {
        m00: m.m00,
        m01: m.m10,
        m02: m.m20,
        m10: m.m01,
        m11: m.m11,
        m12: m.m21,
        m20: m.m02,
        m21: m.m12,
        m22: m.m22,
    }
}

pub fn mat3_det(m: &Mat3) -> (d: i64)
    ensures
        d == mat3_det_spec(*m),
{
    fx_mul(m.m00, fx_mul(m.m11, m.m22) - fx_mul(m.m12, m.m21)) + fx_mul(
        m.m01,
        fx_mul(m.m12, m.m20) - fx_mul(m.m10, m.m22),
    ) + fx_mul(m.m02, fx_mul(m.m10, m.m21) - fx_mul(m.m11, m.m20))
}

/// Inverts a linear transform, or yields the identity on a singular
/// input rather than failing.
pub fn mat3_inverse_or_identity(m: &Mat3) -> (r: Mat3)
    ensures
        r == mat3_inverse_or_identity_spec(*m),
{
    let det = mat3_det(m);
    if det == 0 {
        mat3_identity()
    } else {
        Mat3 {
            m00: fx_div(fx_mul(m.m11, m.m22) - fx_mul(m.m12, m.m21), det),
            m01: fx_div(fx_mul(m.m02, m.m21) - fx_mul(m.m01, m.m22), det),
            m02: fx_div(fx_mul(m.m01, m.m12) - fx_mul(m.m02, m.m11), det),
            m10: fx_div(fx_mul(m.m12, m.m20) - fx_mul(m.m10, m.m22), det),
            m11: fx_div(fx_mul(m.m00, m.m22) - fx_mul(m.m02, m.m20), det),
            m12: fx_div(fx_mul(m.m02, m.m10) - fx_mul(m.m00, m.m12), det),
            m20: fx_div(fx_mul(m.m10, m.m21) - fx_mul(m.m11, m.m20), det),
            m21: fx_div(fx_mul(m.m01, m.m20) - fx_mul(m.m00, m.m21), det),
            m22: fx_div(fx_mul(m.m00, m.m11) - fx_mul(m.m01, m.m10), det),
        }
    }
}

} // verus!
