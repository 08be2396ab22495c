//! The pipeline driver: transform every vertex, assemble consecutive
//! triples into triangles (dropping a trailing partial group),
//! rasterize each triangle, shade each fragment by the chosen
//! material, and composite the colors into the framebuffer through
//! the depth test. One loop serves every material.

use vstd::prelude::*;
use vstd::arithmetic::div_mod::lemma_fundamental_div_mod;
use crate::color::{color_pack, Color};
use crate::fixed::fx_ok;
use crate::framebuffer::{point_spec, FbView, Framebuffer};
use crate::raster::{screen_frags, triangle, vertex_raster_ok};
use crate::shaders::{
    combined_spec,
    combined_shader,
    earth_spec,
    earth_shader,
    jupiter_spec,
    jupiter_shader,
    mars_spec,
    mars_shader,
    moon_spec,
    moon_shader,
    rocky_planet_spec,
    rocky_planet_shader,
    saturn_rings_spec,
    saturn_rings_shader,
    saturn_spec,
    saturn_shader,
    sun_spec,
    sun_shader,
    venus_spec,
    venus_shader,
};
use crate::transform::{vertex_shader, vertex_shader_spec};
use crate::vertex::{Fragment, Uniforms, Vertex};

verus! {

broadcast use vstd::seq::group_seq_axioms;

/// The materials of the scene: one procedural shader each, plus a
/// flat color for callers that want uniform shading.
#[derive(Clone, Copy, PartialEq, Eq, Structural, Debug)]
pub enum Material {
    Sun,
    RockyPlanet,
    Venus,
    Earth,
    Mars,
    Jupiter,
    Moon,
    Saturn,
    SaturnRings,
    Combined,
    Flat(Color),
}

/// The color a material gives one fragment.
pub open spec fn shade_spec(m: Material, f: Fragment, u: Uniforms) -> Color {
    match m {
        Material::Sun => sun_spec(f, u),
        Material::RockyPlanet => rocky_planet_spec(f),
        Material::Venus => venus_spec(f, u),
        Material::Earth => earth_spec(f, u),
        Material::Mars => mars_spec(f),
        Material::Jupiter => jupiter_spec(f, u),
        Material::Moon => moon_spec(f),
        Material::Saturn => saturn_spec(f, u),
        Material::SaturnRings => saturn_rings_spec(f),
        Material::Combined => combined_spec(f, u),
        Material::Flat(c) => c,
    }
}

pub fn shade(m: Material, fragment: &Fragment, uniforms: &Uniforms) -> (c: Color)
    requires
        crate::raster::fragment_ok(*fragment),
    ensures
        c == shade_spec(m, *fragment, *uniforms),
{
    match m {
        Material::Sun => sun_shader(fragment, uniforms),
        Material::RockyPlanet => rocky_planet_shader(fragment, uniforms),
        Material::Venus => venus_shader(fragment, uniforms),
        Material::Earth => earth_shader(fragment, uniforms),
        Material::Mars => mars_shader(fragment, uniforms),
        Material::Jupiter => jupiter_shader(fragment, uniforms),
        Material::Moon => moon_shader(fragment, uniforms),
        Material::Saturn => saturn_shader(fragment, uniforms),
        Material::SaturnRings => saturn_rings_shader(fragment, uniforms),
        Material::Combined => combined_shader(fragment, uniforms),
        Material::Flat(c) => c,
    }
}

/// Consecutive non-overlapping triples of the vertex sequence; a
/// trailing group of one or two vertices is dropped silently.
pub fn assemble_triangles(vertices: &Vec<Vertex>) -> (r: Vec<(Vertex, Vertex, Vertex)>)
    ensures
        r@.len() == vertices@.len() / 3,
        forall|i: int|
            0 <= i < r@.len() ==> #[trigger] r@[i] == (
                vertices@[3 * i],
                vertices@[3 * i + 1],
                vertices@[3 * i + 2],
            ),
{
    let n = vertices.len() / 3;
    proof {
        lemma_fundamental_div_mod(vertices@.len() as int, 3);
        vstd::arithmetic::div_mod::lemma_mod_bound(vertices@.len() as int, 3);
    }
    let mut r: Vec<(Vertex, Vertex, Vertex)> = Vec::new();
    let mut i: usize = 0;
    while i < n
        invariant
            i <= n,
            n == vertices@.len() / 3,
            3 * n <= vertices@.len(),
            vertices@.len() <= usize::MAX,
            r@.len() == i,
            forall|k: int|
                0 <= k < i ==> #[trigger] r@[k] == (
                    vertices@[3 * k],
                    vertices@[3 * k + 1],
                    vertices@[3 * k + 2],
                ),
        decreases n - i,
    {
        proof {
            assert(3 * (i as int) + 2 < vertices@.len());
        }
        let a = vertices[3 * i];
        let b = vertices[3 * i + 1];
        let c = vertices[3 * i + 2];
        r.push((a, b, c));
        i = i + 1;
    }
    r
}

/// Compositing a fragment sequence: for each fragment in order, set
/// the current color to its shaded, packed color, then write it
/// through the depth test.
pub open spec fn composite_frags(
    fb: FbView,
    frags: Seq<Fragment>,
    u: Uniforms,
    m: Material,
) -> FbView
    decreases frags.len(),
{
    if frags.len() == 0 {
        fb
    } else {
        let f = frags[0];
        let fb1 = FbView { current: color_pack(shade_spec(m, f, u)), ..fb };
        composite_frags(
            point_spec(fb1, f.x as int, f.y as int, f.depth as int),
            frags.drop_first(),
            u,
            m,
        )
    }
}

/// Rendering the triangles of the transformed vertex sequence from
/// index `i` on: rasterize each and composite its fragments.
pub open spec fn render_tris(
    fb: FbView,
    u: Uniforms,
    tverts: Seq<Vertex>,
    m: Material,
    i: int,
) -> FbView
    decreases tverts.len() - 3 * i,
{
    if i < 0 || 3 * i + 2 >= tverts.len() {
        fb
    } else {
        render_tris(
            composite_frags(
                fb,
                screen_frags(tverts[3 * i], tverts[3 * i + 1], tverts[3 * i + 2], fb.width,
                fb.height, 0),
                u,
                m,
            ),
            u,
            tverts,
            m,
            i + 1,
        )
    }
}

/// The whole pipeline on one mesh: every vertex through the vertex
/// transform stage, then every complete triangle rasterized, shaded
/// and composited, in order.
pub open spec fn render_spec(fb: FbView, u: Uniforms, verts: Seq<Vertex>, m: Material) -> FbView {
    let tverts = Seq::new(verts.len(), |i: int| vertex_shader_spec(verts[i], u));
    render_tris(fb, u, tverts, m, 0)
}

/// Compositing never changes the buffer's shape, background, or the
/// well-sizedness of its two buffers.
proof fn lemma_composite_shape(fb: FbView, frags: Seq<Fragment>, u: Uniforms, m: Material)
    requires
        fb.colors.len() == fb.width * fb.height,
        fb.depths.len() == fb.width * fb.height,
    ensures
        composite_frags(fb, frags, u, m).width == fb.width,
        composite_frags(fb, frags, u, m).height == fb.height,
        composite_frags(fb, frags, u, m).background == fb.background,
        composite_frags(fb, frags, u, m).colors.len() == fb.colors.len(),
        composite_frags(fb, frags, u, m).depths.len() == fb.depths.len(),
    decreases frags.len(),
{
    if frags.len() > 0 {
        let f = frags[0];
        let fb1 = FbView { current: color_pack(shade_spec(m, f, u)), ..fb };
        let p = point_spec(fb1, f.x as int, f.y as int, f.depth as int);
        if 0 <= f.x < fb.width && 0 <= f.y < fb.height {
            crate::framebuffer::lemma_cell_index_bounds(
                fb.width,
                fb.height,
                f.x as int,
                f.y as int,
            );
        }
        assert(p.colors.len() == fb.colors.len());
        assert(p.depths.len() == fb.depths.len());
        lemma_composite_shape(p, frags.drop_first(), u, m);
    }
}

/// Whether a fragment lies on the given cell.
pub open spec fn at_cell(f: Fragment, x: int, y: int) -> bool {
    f.x == x && f.y == y
}

/// Whether some fragment of the sequence hits the cell with a depth
/// strictly nearer than `d`.
pub open spec fn has_nearer_hit(s: Seq<Fragment>, x: int, y: int, d: int) -> bool {
    exists|k: int| 0 <= k < s.len() && at_cell(#[trigger] s[k], x, y) && s[k].depth < d
}

/// Distinct in-bounds cells have distinct row-major indices.
proof fn lemma_cell_index_distinct(w: int, h: int, x1: int, y1: int, x2: int, y2: int)
    requires
        0 <= x1 < w,
        0 <= y1 < h,
        0 <= x2 < w,
        0 <= y2 < h,
        !(x1 == x2 && y1 == y2),
    ensures
        y1 * w + x1 != y2 * w + x2,
{
    if y1 != y2 {
        let (lo, lx, hi, hx) = if y1 < y2 {
            (y1, x1, y2, x2)
        } else {
            (y2, x2, y1, x1)
        };
        assert((lo + 1) * w == lo * w + w) by {
            vstd::arithmetic::mul::lemma_mul_is_distributive_add_other_way(w, lo, 1);
        }
        assert((lo + 1) * w <= hi * w) by {
            vstd::arithmetic::mul::lemma_mul_inequality(lo + 1, hi, w);
        }
    }
}

/// What one cell holds after compositing a fragment sequence: if no
/// fragment hits the cell nearer than what it held, the cell is
/// untouched; otherwise the cell holds the depth and shaded color of
/// a nearest fragment at that cell.
proof fn lemma_composite_cell(
    fb: FbView,
    s: Seq<Fragment>,
    u: Uniforms,
    m: Material,
    x: int,
    y: int,
)
    requires
        fb.colors.len() == fb.width * fb.height,
        fb.depths.len() == fb.width * fb.height,
        0 <= x < fb.width,
        0 <= y < fb.height,
    ensures
        ({
            let i = y * fb.width + x;
            let out = composite_frags(fb, s, u, m);
            &&& (!has_nearer_hit(s, x, y, fb.depths[i] as int) ==> out.depths[i] == fb.depths[i]
                && out.colors[i] == fb.colors[i])
            &&& (has_nearer_hit(s, x, y, fb.depths[i] as int) ==> exists|k: int|
                0 <= k < s.len() && at_cell(#[trigger] s[k], x, y) && out.depths[i] == s[k].depth
                    && out.colors[i] == color_pack(shade_spec(m, s[k], u)) && s[k].depth
                    < fb.depths[i] && (forall|j: int|
                    0 <= j < s.len() && at_cell(#[trigger] s[j], x, y) ==> s[k].depth
                        <= s[j].depth))
        }),
    decreases s.len(),
{
    let i = y * fb.width + x;
    crate::framebuffer::lemma_cell_index_bounds(fb.width, fb.height, x, y);
    let out = composite_frags(fb, s, u, m);
    let d0 = fb.depths[i] as int;
    if s.len() > 0 {
        let f = s[0];
        let rest = s.drop_first();
        let fb1 = FbView { current: color_pack(shade_spec(m, f, u)), ..fb };
        let fbp = point_spec(fb1, f.x as int, f.y as int, f.depth as int);
        if !(f.x == x && f.y == y) && 0 <= f.x < fb.width && 0 <= f.y < fb.height {
            crate::framebuffer::lemma_cell_index_bounds(
                fb.width,
                fb.height,
                f.x as int,
                f.y as int,
            );
            lemma_cell_index_distinct(fb.width, fb.height, x, y, f.x as int, f.y as int);
        }
        assert(fbp.colors.len() == fb.colors.len() && fbp.depths.len() == fb.depths.len());
        lemma_composite_cell(fbp, rest, u, m, x, y);
        assert(out == composite_frags(fbp, rest, u, m));
        let dp = fbp.depths[i] as int;
        if at_cell(f, x, y) && f.depth < d0 {
            assert(dp == f.depth && fbp.colors[i] == color_pack(shade_spec(m, f, u)));
            if has_nearer_hit(rest, x, y, dp) {
                let k = choose|k: int|
                    0 <= k < rest.len() && at_cell(#[trigger] rest[k], x, y) && out.depths[i]
                        == rest[k].depth && out.colors[i] == color_pack(
                        shade_spec(m, rest[k], u),
                    ) && rest[k].depth < dp && (forall|j: int|
                        0 <= j < rest.len() && at_cell(#[trigger] rest[j], x, y) ==> rest[k].depth
                            <= rest[j].depth);
                assert(s[k + 1] == rest[k]);
                assert forall|j: int| 0 <= j < s.len() && at_cell(#[trigger] s[j], x, y) implies s[k + 1].depth <= s[j].depth by {
                    if j > 0 {
                        assert(s[j] == rest[j - 1]);
                    }
                }
                assert(has_nearer_hit(s, x, y, d0));
            } else {
                assert(out.depths[i] == fbp.depths[i] && out.colors[i] == fbp.colors[i]);
                assert forall|j: int| 0 <= j < s.len() && at_cell(#[trigger] s[j], x, y) implies s[0].depth <= s[j].depth by {
                    if j > 0 {
                        assert(s[j] == rest[j - 1]);
                        assert(!(rest[j - 1].depth < dp));
                    }
                }
                assert(has_nearer_hit(s, x, y, d0));
            }
        } else {
            assert(fbp.depths[i] == fb.depths[i] && fbp.colors[i] == fb.colors[i]);
            if has_nearer_hit(s, x, y, d0) {
                let k = choose|k: int|
                    0 <= k < s.len() && at_cell(#[trigger] s[k], x, y) && s[k].depth < d0;
                assert(k != 0);
                assert(rest[k - 1] == s[k]);
                assert(has_nearer_hit(rest, x, y, dp));
                let k2 = choose|k2: int|
                    0 <= k2 < rest.len() && at_cell(#[trigger] rest[k2], x, y) && out.depths[i]
                        == rest[k2].depth && out.colors[i] == color_pack(
                        shade_spec(m, rest[k2], u),
                    ) && rest[k2].depth < dp && (forall|j: int|
                        0 <= j < rest.len() && at_cell(#[trigger] rest[j], x, y) ==> rest[k2].depth
                            <= rest[j].depth);
                assert(s[k2 + 1] == rest[k2]);
                assert forall|j: int| 0 <= j < s.len() && at_cell(#[trigger] s[j], x, y) implies s[k2 + 1].depth <= s[j].depth by {
                    if j > 0 {
                        assert(s[j] == rest[j - 1]);
                    } else {
                        assert(!(s[0].depth < d0));
                    }
                }
            } else {
                assert forall|k: int|
                    0 <= k < rest.len() && at_cell(#[trigger] rest[k], x, y) implies !(rest[k].depth
                    < dp) by {
                    assert(s[k + 1] == rest[k]);
                }
                assert(!has_nearer_hit(rest, x, y, dp));
            }
        }
    }
}

/// Membership transfers between two sequences with the same
/// multiset of elements.
proof fn lemma_multiset_contains_transfer(s1: Seq<Fragment>, s2: Seq<Fragment>, e: Fragment)
    requires
        s1.to_multiset() == s2.to_multiset(),
        s1.contains(e),
    ensures
        s2.contains(e),
{
    broadcast use vstd::seq_lib::group_to_multiset_ensures;

    assert(s1.to_multiset().count(e) > 0);
    assert(s2.to_multiset().count(e) > 0);
}

/// Submitting the same fragments in any order gives the same color
/// and depth buffers, provided no two distinct fragments contest one
/// cell at exactly the same depth: the nearest surface wins a cell no
/// matter when it arrives.
pub proof fn lemma_depth_order_independent(
    fb: FbView,
    s1: Seq<Fragment>,
    s2: Seq<Fragment>,
    u: Uniforms,
    m: Material,
)
    requires
        fb.width >= 0,
        fb.height >= 0,
        fb.colors.len() == fb.width * fb.height,
        fb.depths.len() == fb.width * fb.height,
        s1.to_multiset() == s2.to_multiset(),
        forall|i: int, j: int|
            0 <= i < s1.len() && 0 <= j < s1.len() && #[trigger] s1[i].x == #[trigger] s1[j].x
                && s1[i].y == s1[j].y && s1[i] != s1[j] ==> s1[i].depth != s1[j].depth,
    ensures
        composite_frags(fb, s1, u, m).colors == composite_frags(fb, s2, u, m).colors,
        composite_frags(fb, s1, u, m).depths == composite_frags(fb, s2, u, m).depths,
{
    broadcast use vstd::seq_lib::group_to_multiset_ensures;

    let o1 = composite_frags(fb, s1, u, m);
    let o2 = composite_frags(fb, s2, u, m);
    lemma_composite_shape(fb, s1, u, m);
    lemma_composite_shape(fb, s2, u, m);
    assert forall|idx: int| 0 <= idx < fb.colors.len() implies o1.colors[idx] == o2.colors[idx]
        && o1.depths[idx] == o2.depths[idx] by {
        let w = fb.width;
        assert(w > 0) by {
            if w <= 0 {
                crate::fixed::lemma_mul_bounds2(w, fb.height, 0, fb.height);
            }
        }
        let x = idx % w;
        let y = idx / w;
        lemma_fundamental_div_mod(idx, w);
        vstd::arithmetic::div_mod::lemma_mod_bound(idx, w);
        vstd::arithmetic::div_mod::lemma_div_pos_is_pos(idx, w);
        assert(y < fb.height) by {
            if y >= fb.height {
                vstd::arithmetic::mul::lemma_mul_inequality(fb.height, y, w);
                vstd::arithmetic::mul::lemma_mul_is_commutative(fb.height, w);
                vstd::arithmetic::mul::lemma_mul_is_commutative(y, w);
            }
        }
        assert(idx == y * w + x) by {
            vstd::arithmetic::mul::lemma_mul_is_commutative(y, w);
        }
        lemma_composite_cell(fb, s1, u, m, x, y);
        lemma_composite_cell(fb, s2, u, m, x, y);
        let d0 = fb.depths[idx] as int;
        if has_nearer_hit(s1, x, y, d0) {
            let ka = choose|k: int|
                0 <= k < s1.len() && at_cell(#[trigger] s1[k], x, y) && s1[k].depth < d0;
            assert(s1.contains(s1[ka]));
            lemma_multiset_contains_transfer(s1, s2, s1[ka]);
            let kb = choose|k: int| 0 <= k < s2.len() && s2[k] == s1[ka];
            assert(has_nearer_hit(s2, x, y, d0));
            let e1 = choose|k: int|
                0 <= k < s1.len() && at_cell(#[trigger] s1[k], x, y) && o1.depths[idx]
                    == s1[k].depth && o1.colors[idx] == color_pack(shade_spec(m, s1[k], u)) && s1[k].depth < d0 && (forall|j: int|
                    0 <= j < s1.len() && at_cell(#[trigger] s1[j], x, y) ==> s1[k].depth
                        <= s1[j].depth);
            let e2 = choose|k: int|
                0 <= k < s2.len() && at_cell(#[trigger] s2[k], x, y) && o2.depths[idx]
                    == s2[k].depth && o2.colors[idx] == color_pack(shade_spec(m, s2[k], u)) && s2[k].depth < d0 && (forall|j: int|
                    0 <= j < s2.len() && at_cell(#[trigger] s2[j], x, y) ==> s2[k].depth
                        <= s2[j].depth);
            let f1 = s1[e1];
            let f2 = s2[e2];
            // Each winner is a member of the other submission, so the
            // two minimal depths agree.
            assert(s1.contains(f1));
            lemma_multiset_contains_transfer(s1, s2, f1);
            let j2 = choose|j: int| 0 <= j < s2.len() && s2[j] == f1;
            assert(f2.depth <= f1.depth);
            assert(s2.contains(f2));
            lemma_multiset_contains_transfer(s2, s1, f2);
            let j1 = choose|j: int| 0 <= j < s1.len() && s1[j] == f2;
            assert(f1.depth <= f2.depth);
            // Equal depth at one cell forces the same fragment.
            assert(f1 == f2);
        } else {
            assert forall|k: int|
                0 <= k < s2.len() && at_cell(#[trigger] s2[k], x, y) implies !(s2[k].depth
                < d0) by {
                assert(s2.contains(s2[k]));
                lemma_multiset_contains_transfer(s2, s1, s2[k]);
                let j = choose|j: int| 0 <= j < s1.len() && s1[j] == s2[k];
            }
            assert(!has_nearer_hit(s2, x, y, d0));
        }
    }
    assert(o1.colors =~= o2.colors);
    assert(o1.depths =~= o2.depths);
}

/// Runs the pipeline for one mesh and one material, mutating the
/// framebuffer exactly as the mathematical pipeline describes.
pub fn render(
    framebuffer: &mut Framebuffer,
    uniforms: &Uniforms,
    vertex_array: &Vec<Vertex>,
    material: Material,
)
    requires
        old(framebuffer).wf(),
        forall|i: int|
            0 <= i < vertex_array@.len() ==> fx_ok(
                #[trigger] vertex_array@[i].tex_coords.x as int,
            ) && fx_ok(vertex_array@[i].tex_coords.y as int),
    ensures
        final(framebuffer).wf(),
        final(framebuffer).width == old(framebuffer).width,
        final(framebuffer).height == old(framebuffer).height,
        final(framebuffer)@ == render_spec(old(framebuffer)@, *uniforms, vertex_array@, material),
{
    let ghost fb0 = framebuffer@;
    let n = vertex_array.len();
    let ghost tseq = Seq::new(n as nat, |k: int| vertex_shader_spec(vertex_array@[k], *uniforms));
    let mut transformed: Vec<Vertex> = Vec::new();
    let mut i: usize = 0;
    while i < n
        invariant
            i <= n,
            n == vertex_array@.len(),
            tseq == Seq::new(n as nat, |k: int| vertex_shader_spec(vertex_array@[k], *uniforms)),
            transformed@ == tseq.take(i as int),
            forall|k: int|
                0 <= k < n ==> fx_ok(#[trigger] vertex_array@[k].tex_coords.x as int) && fx_ok(
                    vertex_array@[k].tex_coords.y as int,
                ),
            forall|k: int| 0 <= k < i ==> vertex_raster_ok(#[trigger] transformed@[k]),
        decreases n - i,
    {
        let tv = vertex_shader(&vertex_array[i], uniforms);
        proof {
            assert(vertex_raster_ok(tv));
        }
        transformed.push(tv);
        proof {
            assert(transformed@ =~= tseq.take(i as int + 1));
        }
        i = i + 1;
    }
    proof {
        assert(transformed@ =~= tseq);
    }
    let tris = vertex_array.len() / 3;
    proof {
        lemma_fundamental_div_mod(n as int, 3);
        vstd::arithmetic::div_mod::lemma_mod_bound(n as int, 3);
    }
    let mut t: usize = 0;
    while t < tris
        invariant
            t <= tris,
            n == vertex_array@.len(),
            tris == n as int / 3,
            3 * tris <= n,
            transformed@ == tseq,
            tseq.len() == n,
            forall|k: int| 0 <= k < n ==> vertex_raster_ok(#[trigger] transformed@[k]),
            framebuffer.wf(),
            framebuffer.width == old(framebuffer).width,
            framebuffer.height == old(framebuffer).height,
            render_tris(fb0, *uniforms, tseq, material, 0) == render_tris(
                framebuffer@,
                *uniforms,
                tseq,
                material,
                t as int,
            ),
        decreases tris - t,
    {
        let base = 3 * t;
        let ghost fb_tri = framebuffer@;
        let frags = triangle(
            &transformed[base],
            &transformed[base + 1],
            &transformed[base + 2],
            framebuffer.width,
            framebuffer.height,
        );
        let ghost fseq = frags@;
        proof {
            crate::raster::lemma_screen_frags_props(
                tseq[base as int],
                tseq[base as int + 1],
                tseq[base as int + 2],
                framebuffer.width as int,
                framebuffer.height as int,
                0,
            );
        }
        proof {
            assert(fseq.skip(0) =~= fseq);
        }
        let fn_count = frags.len();
        let mut j: usize = 0;
        while j < fn_count
            invariant
                j <= fn_count,
                fn_count == fseq.len(),
                frags@ == fseq,
                forall|k: int| 0 <= k < fseq.len() ==> crate::raster::fragment_ok(#[trigger] fseq[k]),
                framebuffer.wf(),
                framebuffer.width == old(framebuffer).width,
                framebuffer.height == old(framebuffer).height,
                composite_frags(fb_tri, fseq, *uniforms, material) == composite_frags(
                    framebuffer@,
                    fseq.skip(j as int),
                    *uniforms,
                    material,
                ),
            decreases fn_count - j,
        {
            let f = frags[j];
            let ghost fb_before = framebuffer@;
            let col = shade(material, &f, uniforms);
            let packed = col.to_hex();
            framebuffer.set_current_color(packed);
            framebuffer.point(f.x, f.y, f.depth);
            proof {
                let rest = fseq.skip(j as int);
                assert(rest[0] == f);
                assert(rest.drop_first() =~= fseq.skip(j as int + 1));
            }
            j = j + 1;
        }
        proof {
            assert(fseq.skip(fseq.len() as int) =~= Seq::<Fragment>::empty());
            assert(composite_frags(fb_tri, fseq, *uniforms, material) == framebuffer@);
            assert(fb_tri.width == framebuffer@.width);
            assert(render_tris(fb_tri, *uniforms, tseq, material, t as int) == render_tris(
                framebuffer@,
                *uniforms,
                tseq,
                material,
                t as int + 1,
            ));
        }
        t = t + 1;
    }
    proof {
        assert(render_tris(framebuffer@, *uniforms, tseq, material, t as int) == framebuffer@);
    }
}

} // verus!
