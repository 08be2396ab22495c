use softrender::color::Color;
use softrender::fixed::{fx_div, fx_mul, psin, FX_HALF, FX_LIMIT, FX_ONE};
use softrender::framebuffer::{Framebuffer, DEPTH_FAR};
use softrender::geom::{mat4_identity, Fx2, Fx3, Mat4};
use softrender::pipeline::{assemble_triangles, render, Material};
use softrender::raster::triangle;
use softrender::shaders::{
    circle_shader, combined_blend_shader, earth_shader, jupiter_shader, mars_shader, moon_shader,
    moving_circles_shader, purple_shader, rocky_planet_shader, saturn_rings_shader, saturn_shader,
    static_pattern_shader, sun_shader, venus_shader,
};
use softrender::transform::{vertex_shader, viewport_matrix};
use softrender::vertex::{Fragment, Uniforms, Vertex};

fn frag_at_origin() -> Fragment {
    Fragment {
        x: 0,
        y: 0,
        vertex_position: Fx2 { x: 0, y: 0 },
        normal: Fx3 { x: 0, y: 0, z: FX_ONE },
        intensity: FX_ONE,
        depth: 0,
    }
}

fn screen_vertex(x: i64, y: i64, z: i64) -> Vertex {
    let mut v = Vertex::new(
        Fx3 { x: 0, y: 0, z: 0 },
        Fx3 { x: 0, y: 0, z: FX_ONE },
        Fx2 { x: 0, y: 0 },
    );
    v.transformed_position = Fx3 { x, y, z };
    v.transformed_normal = Fx3 { x: 0, y: 0, z: FX_ONE };
    v
}

fn identity_uniforms(width: usize, height: usize) -> Uniforms {
    Uniforms {
        model_matrix: mat4_identity(),
        view_matrix: mat4_identity(),
        projection_matrix: mat4_identity(),
        viewport_matrix: viewport_matrix(width, height),
        time: 0,
    }
}

#[test]
fn fixed_point_products_and_quotients() {
    assert_eq!(fx_mul(FX_ONE, FX_ONE), FX_ONE);
    assert_eq!(fx_mul(98304, 98304), 147456); // 1.5 * 1.5 == 2.25
    assert_eq!(fx_mul(-FX_ONE, FX_HALF), -FX_HALF);
    assert_eq!(fx_div(FX_ONE, 2 * FX_ONE), FX_HALF);
    assert_eq!(fx_div(FX_LIMIT, 1), FX_LIMIT); // saturates
    assert_eq!(fx_div(-FX_LIMIT, 1), -FX_LIMIT);
}

#[test]
fn wave_values_and_period() {
    assert_eq!(psin(0), 0);
    assert_eq!(psin(FX_ONE), FX_ONE);
    assert_eq!(psin(2 * FX_ONE), 0);
    assert_eq!(psin(3 * FX_ONE), -FX_ONE);
    assert_eq!(psin(4 * FX_ONE), 0);
    assert_eq!(psin(5 * FX_ONE), psin(FX_ONE));
    assert_eq!(psin(-FX_ONE), -FX_ONE);
}

#[test]
fn lerp_endpoints() {
    let a = Color::new(10, 200, 30);
    let b = Color::new(250, 0, 130);
    assert_eq!(a.lerp(&b, 0), a);
    assert_eq!(a.lerp(&b, FX_ONE), b);
    assert_eq!(a.lerp(&b, FX_HALF), Color::new(130, 100, 80));
}

#[test]
fn blends_commute_and_saturate() {
    let a = Color::new(200, 10, 128);
    let b = Color::new(100, 250, 200);
    assert_eq!(a.blend_add(&b), b.blend_add(&a));
    assert_eq!(a.blend_multiply(&b), b.blend_multiply(&a));
    assert_eq!(a.blend_add(&b), Color::new(255, 255, 255)); // saturates high
    assert_eq!(a.blend_subtract(&b), Color::new(100, 0, 0)); // saturates low
    assert_eq!(a.blend_multiply(&b), Color::new(78, 9, 100));
    assert_eq!(a.blend_normal(&b), b);
}

#[test]
fn color_packs_to_hex() {
    assert_eq!(Color::new(255, 255, 255).to_hex(), 0x00FF_FFFF);
    assert_eq!(Color::new(1, 2, 3).to_hex(), 0x0001_0203);
    assert_eq!(Color::new(0, 0, 0).to_hex(), 0);
}

#[test]
fn scale_saturates_at_channel_bound() {
    let c = Color::new(200, 100, 0);
    assert_eq!(c.scale(98304), Color::new(255, 150, 0)); // times 1.5
    assert_eq!(c.scale(0), Color::new(0, 0, 0));
    assert_eq!(c.scale(FX_ONE), c);
}

#[test]
fn clear_resets_every_cell() {
    let mut fb = Framebuffer::new(7, 5);
    fb.set_background_color(0x123456);
    fb.set_current_color(0xFFFFFF);
    fb.point(3, 2, 100);
    fb.clear();
    for y in 0..5 {
        for x in 0..7 {
            assert_eq!(fb.get_color(x, y), 0x123456);
            assert_eq!(fb.get_depth(x, y), DEPTH_FAR);
        }
    }
}

#[test]
fn point_obeys_the_depth_test() {
    let mut fb = Framebuffer::new(4, 4);
    fb.set_current_color(0xAA0000);
    fb.point(1, 1, 500);
    assert_eq!(fb.get_color(1, 1), 0xAA0000);
    assert_eq!(fb.get_depth(1, 1), 500);
    // A farther write is ignored.
    fb.set_current_color(0x00BB00);
    fb.point(1, 1, 600);
    assert_eq!(fb.get_color(1, 1), 0xAA0000);
    // An equal-depth write is ignored too: the first surface keeps the cell.
    fb.point(1, 1, 500);
    assert_eq!(fb.get_color(1, 1), 0xAA0000);
    // A nearer write wins.
    fb.point(1, 1, 400);
    assert_eq!(fb.get_color(1, 1), 0x00BB00);
    assert_eq!(fb.get_depth(1, 1), 400);
    // Out of bounds is a no-op, not a panic.
    fb.point(9, 9, 0);
}

#[test]
fn degenerate_triangle_emits_no_fragments() {
    let v0 = screen_vertex(0, 0, 0);
    let v1 = screen_vertex(2 * FX_ONE, 2 * FX_ONE, 0);
    let v2 = screen_vertex(4 * FX_ONE, 4 * FX_ONE, 0); // collinear
    let frags = triangle(&v0, &v1, &v2, 8, 8);
    assert_eq!(frags.len(), 0);
}

#[test]
fn half_square_triangle_covers_lower_triangle_of_pixels() {
    let v0 = screen_vertex(0, 0, 0);
    let v1 = screen_vertex(4 * FX_ONE, 0, 0);
    let v2 = screen_vertex(0, 4 * FX_ONE, 0);
    let frags = triangle(&v0, &v1, &v2, 4, 4);
    let mut covered = [[false; 4]; 4];
    for f in frags.iter() {
        covered[f.y][f.x] = true;
        assert_eq!(f.depth, 0);
    }
    for y in 0..4 {
        for x in 0..4 {
            assert_eq!(covered[y][x], x + y < 4, "pixel ({}, {})", x, y);
        }
    }
}

#[test]
fn shared_edge_pixels_are_claimed_exactly_once() {
    // Two triangles splitting a 4-by-4 square along its diagonal.
    let a0 = screen_vertex(0, 0, 0);
    let a1 = screen_vertex(4 * FX_ONE, 0, 0);
    let a2 = screen_vertex(0, 4 * FX_ONE, 0);
    let b0 = screen_vertex(4 * FX_ONE, 0, 0);
    let b1 = screen_vertex(4 * FX_ONE, 4 * FX_ONE, 0);
    let b2 = screen_vertex(0, 4 * FX_ONE, 0);
    let fa = triangle(&a0, &a1, &a2, 4, 4);
    let fb = triangle(&b0, &b1, &b2, 4, 4);
    let mut count = [[0u32; 4]; 4];
    for f in fa.iter().chain(fb.iter()) {
        count[f.y][f.x] += 1;
    }
    for y in 0..4 {
        for x in 0..4 {
            assert_eq!(count[y][x], 1, "pixel ({}, {})", x, y);
        }
    }
    assert_eq!(fa.len() + fb.len(), 16);
}

#[test]
fn end_to_end_white_triangle_on_black() {
    // Object coordinates chosen so the viewport maps them to screen
    // corners (0,0), (4,0) and (0,4) of a 4-by-4 framebuffer.
    let mut fb = Framebuffer::new(4, 4);
    fb.set_background_color(0);
    fb.clear();
    let v0 = Vertex::new(
        Fx3 { x: -FX_ONE, y: FX_ONE, z: 0 },
        Fx3 { x: 0, y: 0, z: FX_ONE },
        Fx2 { x: 0, y: 0 },
    );
    let mut v1 = v0;
    v1.position = Fx3 { x: FX_ONE, y: FX_ONE, z: 0 };
    let mut v2 = v0;
    v2.position = Fx3 { x: -FX_ONE, y: -FX_ONE, z: 0 };
    let verts = vec![v0, v1, v2];
    let uniforms = identity_uniforms(4, 4);
    render(
        &mut fb,
        &uniforms,
        &verts,
        Material::Flat(Color::new(255, 255, 255)),
    );
    for y in 0..4 {
        for x in 0..4 {
            if x + y < 4 {
                assert_eq!(fb.get_color(x, y), 0x00FF_FFFF, "pixel ({}, {})", x, y);
                assert_eq!(fb.get_depth(x, y), 0);
            } else {
                assert_eq!(fb.get_color(x, y), 0, "pixel ({}, {})", x, y);
                assert_eq!(fb.get_depth(x, y), DEPTH_FAR);
            }
        }
    }
}

#[test]
fn overlapping_triangles_composite_the_same_in_either_order() {
    let quad = |x0: i64, y0: i64, x1: i64, y1: i64, z: i64| -> Vec<Vertex> {
        let v = Vertex::new(
            Fx3 { x: 0, y: 0, z: 0 },
            Fx3 { x: 0, y: 0, z: FX_ONE },
            Fx2 { x: 0, y: 0 },
        );
        let mut a = v;
        a.position = Fx3 { x: x0, y: y0, z };
        let mut b = v;
        b.position = Fx3 { x: x1, y: y0, z };
        let mut c = v;
        c.position = Fx3 { x: x0, y: y1, z };
        let mut d = v;
        d.position = Fx3 { x: x1, y: y1, z };
        vec![a, b, c, b, d, c]
    };
    let near = quad(-FX_ONE, -FX_ONE, FX_HALF, FX_HALF, 16384);
    let far = quad(-FX_HALF, -FX_HALF, FX_ONE, FX_ONE, 32768);
    let u = identity_uniforms(8, 8);

    let mut fb1 = Framebuffer::new(8, 8);
    render(&mut fb1, &u, &near, Material::Flat(Color::new(255, 0, 0)));
    render(&mut fb1, &u, &far, Material::Flat(Color::new(0, 0, 255)));

    let mut fb2 = Framebuffer::new(8, 8);
    render(&mut fb2, &u, &far, Material::Flat(Color::new(0, 0, 255)));
    render(&mut fb2, &u, &near, Material::Flat(Color::new(255, 0, 0)));

    for y in 0..8 {
        for x in 0..8 {
            assert_eq!(fb1.get_color(x, y), fb2.get_color(x, y), "pixel ({}, {})", x, y);
            assert_eq!(fb1.get_depth(x, y), fb2.get_depth(x, y), "pixel ({}, {})", x, y);
        }
    }
}

#[test]
fn origin_vertex_maps_to_framebuffer_center() {
    let u = identity_uniforms(8, 6);
    let v = Vertex::new(
        Fx3 { x: 0, y: 0, z: 0 },
        Fx3 { x: 0, y: 0, z: FX_ONE },
        Fx2 { x: 0, y: 0 },
    );
    let t = vertex_shader(&v, &u);
    assert_eq!(t.transformed_position.x, 4 * FX_ONE);
    assert_eq!(t.transformed_position.y, 3 * FX_ONE);
    assert_eq!(t.transformed_position.z, 0);
}

#[test]
fn zero_w_is_guarded_in_the_perspective_divide() {
    let zero = Mat4 {
        m00: 0,
        m01: 0,
        m02: 0,
        m03: 0,
        m10: 0,
        m11: 0,
        m12: 0,
        m13: 0,
        m20: 0,
        m21: 0,
        m22: 0,
        m23: 0,
        m30: 0,
        m31: 0,
        m32: 0,
        m33: 0,
    };
    let u = Uniforms {
        model_matrix: mat4_identity(),
        view_matrix: mat4_identity(),
        projection_matrix: zero,
        viewport_matrix: viewport_matrix(4, 4),
        time: 0,
    };
    let v = Vertex::new(
        Fx3 { x: FX_ONE, y: FX_ONE, z: FX_ONE },
        Fx3 { x: 0, y: 0, z: FX_ONE },
        Fx2 { x: 0, y: 0 },
    );
    let t = vertex_shader(&v, &u);
    // Clip space collapses to zero; the guarded divide leaves the
    // vertex at the viewport's center.
    assert_eq!(t.transformed_position.x, 2 * FX_ONE);
    assert_eq!(t.transformed_position.y, 2 * FX_ONE);
}

#[test]
fn singular_model_matrix_leaves_the_normal_unchanged() {
    let mut singular = mat4_identity();
    singular.m00 = 0;
    singular.m11 = 0;
    singular.m22 = 0; // zero linear part, still a valid transform
    let u = Uniforms {
        model_matrix: singular,
        view_matrix: mat4_identity(),
        projection_matrix: mat4_identity(),
        viewport_matrix: viewport_matrix(4, 4),
        time: 0,
    };
    let v = Vertex::new(
        Fx3 { x: 0, y: 0, z: 0 },
        Fx3 { x: 12345, y: -678, z: FX_ONE },
        Fx2 { x: 0, y: 0 },
    );
    let t = vertex_shader(&v, &u);
    assert_eq!(t.transformed_normal, Fx3 { x: 12345, y: -678, z: FX_ONE });
}

#[test]
fn assembly_drops_trailing_vertices() {
    let v = Vertex::new(
        Fx3 { x: 0, y: 0, z: 0 },
        Fx3 { x: 0, y: 0, z: FX_ONE },
        Fx2 { x: 0, y: 0 },
    );
    let verts = vec![v; 8];
    let tris = assemble_triangles(&verts);
    assert_eq!(tris.len(), 2);
    let empty: Vec<Vertex> = vec![];
    assert_eq!(assemble_triangles(&empty).len(), 0);
    assert_eq!(assemble_triangles(&vec![v, v]).len(), 0);
}

#[test]
fn blend_shader_modes() {
    let f = frag_at_origin(); // inside the yellow circle
    assert_eq!(circle_shader(&f), Color::new(255, 255, 0));
    assert_eq!(purple_shader(&f), Color::new(128, 0, 128));
    assert_eq!(combined_blend_shader(&f, "normal"), Color::new(255, 255, 0));
    assert_eq!(combined_blend_shader(&f, "multiply"), Color::new(128, 0, 0));
    assert_eq!(combined_blend_shader(&f, "add"), Color::new(255, 255, 128));
    assert_eq!(combined_blend_shader(&f, "subtract"), Color::new(0, 0, 128));
    assert_eq!(combined_blend_shader(&f, "unknown"), Color::new(128, 0, 128));
}

#[test]
fn blend_shader_scales_by_intensity() {
    let mut f = frag_at_origin();
    f.intensity = FX_HALF;
    assert_eq!(combined_blend_shader(&f, "normal"), Color::new(127, 127, 0));
    f.intensity = 0;
    assert_eq!(combined_blend_shader(&f, "normal"), Color::new(0, 0, 0));
}

#[test]
fn circle_shader_is_black_outside_the_disc() {
    let mut f = frag_at_origin();
    f.vertex_position = Fx2 { x: FX_ONE, y: 0 };
    assert_eq!(circle_shader(&f), Color::new(0, 0, 0));
}

#[test]
fn pattern_shaders_at_the_origin() {
    let f = frag_at_origin();
    assert_eq!(static_pattern_shader(&f), Color::new(0, 255, 128));
    let u = identity_uniforms(4, 4);
    assert_eq!(moon_shader(&f, &u), Color::new(200, 200, 200));
}

#[test]
fn fragments_interpolate_depth() {
    // A triangle sloping in depth: near at the left edge, far at the
    // right; fragment depths must grow with x.
    let v0 = screen_vertex(0, 0, 0);
    let v1 = screen_vertex(8 * FX_ONE, 0, FX_ONE);
    let v2 = screen_vertex(0, 8 * FX_ONE, 0);
    let frags = triangle(&v0, &v1, &v2, 8, 8);
    assert!(!frags.is_empty());
    for f in frags.iter() {
        assert!(f.depth >= 0 && f.depth <= FX_ONE);
        assert_eq!(f.intensity, FX_ONE);
    }
    let d_left = frags.iter().find(|f| f.x == 0 && f.y == 0).unwrap().depth;
    let d_right = frags.iter().find(|f| f.x == 6 && f.y == 0).unwrap().depth;
    assert!(d_left < d_right);
}

#[test]
fn products_floor_toward_negative_infinity() {
    assert_eq!(fx_mul(1, 3), 0);
    assert_eq!(fx_mul(-1, 3), -1);
    assert_eq!(fx_div(-FX_ONE, 3 * FX_ONE), -21846);
}

#[test]
fn planet_shaders_at_the_origin() {
    let f = frag_at_origin();
    let u = identity_uniforms(4, 4);
    // At the local origin at time zero the waves sit at known points,
    // so each material's thresholds pick a fixed color.
    assert_eq!(mars_shader(&f, &u), Color::new(205, 92, 92));
    assert_eq!(earth_shader(&f, &u), Color::new(0, 105, 148));
    assert_eq!(jupiter_shader(&f, &u), Color::new(245, 245, 245));
    assert_eq!(saturn_shader(&f, &u), Color::new(245, 222, 179));
    assert_eq!(venus_shader(&f, &u), Color::new(255, 250, 240));
    assert_eq!(rocky_planet_shader(&f, &u), Color::new(0, 0, 0));
    assert_eq!(sun_shader(&f, &u), Color::new(0, 0, 0));
    assert_eq!(moving_circles_shader(&f, &u), Color::new(0, 0, 0));
}

#[test]
fn saturn_rings_pick_annuli_by_radius() {
    let u = identity_uniforms(4, 4);
    let mut f = frag_at_origin();
    // Radius 1.15: squared distance 1.3225 units, inside the first ring.
    f.vertex_position = Fx2 { x: 75366, y: 0 };
    assert_eq!(saturn_rings_shader(&f, &u), Color::new(200, 200, 200));
    // Radius 1.35: inside the second ring.
    f.vertex_position = Fx2 { x: 88474, y: 0 };
    assert_eq!(saturn_rings_shader(&f, &u), Color::new(169, 169, 169));
    // Radius 1.0: between the center and the first ring.
    f.vertex_position = Fx2 { x: FX_ONE, y: 0 };
    assert_eq!(saturn_rings_shader(&f, &u), Color::new(0, 0, 0));
}

#[test]
fn planet_shaders_scale_by_intensity() {
    let u = identity_uniforms(4, 4);
    // At zero intensity every lit material goes black, whatever its
    // pattern says; the emissive sun alone keeps its own brightness.
    let mut dark = frag_at_origin();
    dark.intensity = 0;
    assert_eq!(earth_shader(&dark, &u), Color::new(0, 0, 0));
    assert_eq!(mars_shader(&dark, &u), Color::new(0, 0, 0));
    assert_eq!(jupiter_shader(&dark, &u), Color::new(0, 0, 0));
    assert_eq!(moon_shader(&dark, &u), Color::new(0, 0, 0));
    assert_eq!(saturn_shader(&dark, &u), Color::new(0, 0, 0));
    assert_eq!(venus_shader(&dark, &u), Color::new(0, 0, 0));
    assert_eq!(rocky_planet_shader(&dark, &u), Color::new(0, 0, 0));
    let mut dark_ring = dark;
    dark_ring.vertex_position = Fx2 { x: 75366, y: 0 }; // inside the first ring
    assert_eq!(saturn_rings_shader(&dark_ring, &u), Color::new(0, 0, 0));
    // At half intensity the channels are floored halves.
    let mut half = frag_at_origin();
    half.intensity = FX_HALF;
    assert_eq!(moon_shader(&half, &u), Color::new(100, 100, 100));
    assert_eq!(saturn_shader(&half, &u), Color::new(122, 111, 89));
    assert_eq!(mars_shader(&half, &u), Color::new(102, 46, 46));
}
