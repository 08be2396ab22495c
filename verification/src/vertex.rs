//! The data carried through the pipeline stages: vertices as the mesh
//! supplies them, the per-draw-call uniforms, and the fragments the
//! rasterizer emits.

use vstd::prelude::*;
use crate::color::Color;
use crate::geom::{Fx2, Fx3, Mat4};

verus! {

/// A mesh vertex. The `transformed_*` fields are zero until the
/// vertex transform stage fills them with screen-space position and
/// world-space normal.
#[derive(Clone, Copy, PartialEq, Eq, Structural, Debug)]
pub struct Vertex {
    pub position: Fx3,
    pub normal: Fx3,
    pub tex_coords: Fx2,
    pub color: Option<Color>,
    pub transformed_position: Fx3,
    pub transformed_normal: Fx3,
}

impl Vertex {
    pub fn new(position: Fx3, normal: Fx3, tex_coords: Fx2) -> (v: Vertex)
        ensures
            v == (Vertex {
                position,
                normal,
                tex_coords,
                color: None::<Color>,
                transformed_position: Fx3 { x: 0, y: 0, z: 0 },
                transformed_normal: Fx3 { x: 0, y: 0, z: 0 },
            }),
    {
        Vertex {
            position,
            normal,
            tex_coords,
            color: None,
            transformed_position: Fx3 { x: 0, y: 0, z: 0 },
            transformed_normal: Fx3 { x: 0, y: 0, z: 0 },
        }
    }
}

/// The immutable bundle of matrices and the frame counter for one
/// draw call, supplied by the scene driver.
#[derive(Clone, Copy, PartialEq, Eq, Structural, Debug)]
pub struct Uniforms {
    pub model_matrix: Mat4,
    pub view_matrix: Mat4,
    pub projection_matrix: Mat4,
    pub viewport_matrix: Mat4,
    pub time: u32,
}

/// One candidate pixel produced by the rasterizer: its integer screen
/// position, the interpolated shader inputs, and its depth. `depth`
/// doubles as the z of the screen position; smaller depth is nearer.
#[derive(Clone, Copy, PartialEq, Eq, Structural, Debug)]
pub struct Fragment {
    pub x: usize,
    pub y: usize,
    pub vertex_position: Fx2,
    pub normal: Fx3,
    pub intensity: i64,
    pub depth: i64,
}

} // verus!
