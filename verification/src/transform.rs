//! The vertex transform stage: object space through model, view and
//! projection, a guarded perspective divide, then the viewport map to
//! screen pixels. The normal travels through the transposed inverse
//! of the model's linear part, with an identity fallback when that
//! part is singular.

use vstd::prelude::*;
use crate::fixed::{
    fx_div,
    fx_div_spec,
    fx_ok,
    lemma_fx_mul_one,
    FX_HALF,
    FX_LIMIT,
    FX_ONE,
};
use crate::geom::{
    mat3_apply,
    mat3_apply_spec,
    mat3_inverse_or_identity,
    mat3_inverse_or_identity_spec,
    mat3_transpose,
    mat3_transpose_spec,
    mat4_apply,
    mat4_apply_spec,
    mat4_identity_spec,
    mat4_to_mat3,
    mat4_to_mat3_spec,
    Fx3,
    Fx4,
    Mat4,
};
use crate::vertex::{Uniforms, Vertex};

verus! {

/// Largest framebuffer edge the pipeline accepts, in pixels.
pub const DIM_MAX: usize = 8192;

/// The divisor of the perspective divide: the clip-space w, replaced
/// by one whole unit when it is exactly zero. A near-zero w is kept;
/// the divide then saturates into the working range.
pub open spec fn guarded_w(w: int) -> int {
    if w == 0 {
        FX_ONE as int
    } else {
        w
    }
}

/// The whole vertex transform stage as a function of its inputs.
pub open spec fn vertex_shader_spec(v: Vertex, u: Uniforms) -> Vertex {
    let object = Fx4 { x: v.position.x, y: v.position.y, z: v.position.z, w: FX_ONE };
    let world = mat4_apply_spec(u.model_matrix, object);
    let eye = mat4_apply_spec(u.view_matrix, world);
    let clip = mat4_apply_spec(u.projection_matrix, eye);
    let w = guarded_w(clip.w as int);
    let ndc = Fx4 {
        x: fx_div_spec(clip.x as int, w) as i64,
        y: fx_div_spec(clip.y as int, w) as i64,
        z: fx_div_spec(clip.z as int, w) as i64,
        w: FX_ONE,
    };
    let screen = mat4_apply_spec(u.viewport_matrix, ndc);
    let normal_matrix = mat3_inverse_or_identity_spec(
        mat3_transpose_spec(mat4_to_mat3_spec(u.model_matrix)),
    );
    Vertex {
        position: v.position,
        normal: v.normal,
        tex_coords: v.tex_coords,
        color: v.color,
        transformed_position: Fx3 { x: screen.x, y: screen.y, z: screen.z },
        transformed_normal: mat3_apply_spec(normal_matrix, v.normal),
    }
}

/// Maps one vertex into screen space and corrects its normal. The
/// returned coordinates are saturated into the working range, so the
/// rasterizer can take them as they are.
pub fn vertex_shader(vertex: &Vertex, uniforms: &Uniforms) -> (r: Vertex)
    ensures
        r == vertex_shader_spec(*vertex, *uniforms),
        fx_ok(r.transformed_position.x as int),
        fx_ok(r.transformed_position.y as int),
        fx_ok(r.transformed_position.z as int),
        fx_ok(r.transformed_normal.x as int),
        fx_ok(r.transformed_normal.y as int),
        fx_ok(r.transformed_normal.z as int),
{
    let object = Fx4 {
        x: vertex.position.x,
        y: vertex.position.y,
        z: vertex.position.z,
        w: FX_ONE,
    };
    let world = mat4_apply(&uniforms.model_matrix, &object);
    let eye = mat4_apply(&uniforms.view_matrix, &world);
    let clip = mat4_apply(&uniforms.projection_matrix, &eye);
    let w = if clip.w == 0 {
        FX_ONE
    } else {
        clip.w
    };
    let ndc = Fx4 { x: fx_div(clip.x, w), y: fx_div(clip.y, w), z: fx_div(clip.z, w), w: FX_ONE };
    let screen = mat4_apply(&uniforms.viewport_matrix, &ndc);
    let normal_matrix = mat3_inverse_or_identity(
        &mat3_transpose(&mat4_to_mat3(&uniforms.model_matrix)),
    );
    Vertex {
        position: vertex.position,
        normal: vertex.normal,
        tex_coords: vertex.tex_coords,
        color: vertex.color,
        transformed_position: Fx3 { x: screen.x, y: screen.y, z: screen.z },
        transformed_normal: mat3_apply(&normal_matrix, &vertex.normal),
    }
}

/// The viewport transform for a framebuffer of the given size: x maps
/// `[-1, 1]` onto `[0, width]`, y onto `[height, 0]` (flipped), and
/// depth passes through unchanged.
pub open spec fn viewport_matrix_spec(width: int, height: int) -> Mat4 {
    Mat4 {
        m00: (width * FX_HALF) as i64,
        m01: 0,
        m02: 0,
        m03: (width * FX_HALF) as i64,
        m10: 0,
        m11: (-(height * FX_HALF)) as i64,
        m12: 0,
        m13: (height * FX_HALF) as i64,
        m20: 0,
        m21: 0,
        m22: FX_ONE,
        m23: 0,
        m30: 0,
        m31: 0,
        m32: 0,
        m33: FX_ONE,
    }
}

pub fn viewport_matrix(width: usize, height: usize) -> (r: Mat4)
    requires
        1 <= width <= DIM_MAX,
        1 <= height <= DIM_MAX,
    ensures
        r == viewport_matrix_spec(width as int, height as int),
{
    let half_w = (width as i64) * FX_HALF;
    let half_h = (height as i64) * FX_HALF;
    Mat4 {
        m00: half_w,
        m01: 0,
        m02: 0,
        m03: half_w,
        m10: 0,
        m11: -half_h,
        m12: 0,
        m13: half_h,
        m20: 0,
        m21: 0,
        m22: FX_ONE,
        m23: 0,
        m30: 0,
        m31: 0,
        m32: 0,
        m33: FX_ONE,
    }
}

/// A vertex at the view-space origin, under identity model, view and
/// projection transforms and the viewport of a given framebuffer,
/// lands on the framebuffer's center with depth zero.
pub proof fn lemma_origin_maps_to_center(v: Vertex, u: Uniforms, width: int, height: int)
    requires
        1 <= width <= DIM_MAX,
        1 <= height <= DIM_MAX,
        v.position == (Fx3 { x: 0, y: 0, z: 0 }),
        u.model_matrix == mat4_identity_spec(),
        u.view_matrix == mat4_identity_spec(),
        u.projection_matrix == mat4_identity_spec(),
        u.viewport_matrix == viewport_matrix_spec(width, height),
    ensures
        vertex_shader_spec(v, u).transformed_position.x == width * FX_HALF,
        vertex_shader_spec(v, u).transformed_position.y == height * FX_HALF,
        vertex_shader_spec(v, u).transformed_position.z == 0,
{
    let one = FX_ONE as int;
    lemma_fx_mul_one(0);
    lemma_fx_mul_one(one);
    assert(fx_div_spec(0, one) == 0) by {
        crate::fixed::lemma_fx_div_one(0);
    }
    lemma_fx_mul_one(width * FX_HALF);
    lemma_fx_mul_one(-(height * FX_HALF));
    lemma_fx_mul_one(height * FX_HALF);
    assert(width * FX_HALF <= FX_LIMIT) by (nonlinear_arith)
        requires
            1 <= width <= DIM_MAX,
    ;
    assert(width * FX_HALF >= FX_HALF) by (nonlinear_arith)
        requires
            1 <= width <= DIM_MAX,
    ;
    assert(height * FX_HALF <= FX_LIMIT) by (nonlinear_arith)
        requires
            1 <= height <= DIM_MAX,
    ;
    assert(height * FX_HALF >= FX_HALF) by (nonlinear_arith)
        requires
            1 <= height <= DIM_MAX,
    ;
}

} // verus!
