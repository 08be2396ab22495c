//! The rasterizer: one screen-space triangle in, the finite sequence
//! of covered fragments out. A pixel is covered when its center
//! passes the edge-function test against all three oriented edges;
//! centers exactly on an edge belong to the triangle only when that
//! edge points downward, or left along a horizontal — so of two
//! triangles sharing an edge exactly one claims each boundary pixel.
//! Fragments are listed row by row, top to bottom, left to right.

use vstd::prelude::*;
use vstd::arithmetic::div_mod::{
    lemma_div_is_ordered,
    lemma_div_multiples_vanish,
    lemma_fundamental_div_mod,
};
use vstd::arithmetic::mul::{
    lemma_mul_inequality,
    lemma_mul_is_distributive_add,
    lemma_mul_is_commutative,
    lemma_mul_is_distributive_add_other_way,
    lemma_mul_strict_inequality,
};
use crate::fixed::{
    floor_div_i128,
    fx_clamp01,
    fx_clamped01,
    fx_ok,
    lemma_mul_bounds,
    FX_HALF,
    FX_LIMIT,
    FX_ONE,
};
use crate::geom::{Fx2, Fx3};
use crate::transform::DIM_MAX;
use crate::vertex::{Fragment, Vertex};

verus! {

/// The two-dimensional cross product of `(ax, ay)` and `(bx, by)`.
pub open spec fn cross_spec(ax: int, ay: int, bx: int, by: int) -> int {
    ax * by - ay * bx
}

/// Twice the signed area of the triangle over the screen positions.
pub open spec fn tri_area2_spec(p0: Fx3, p1: Fx3, p2: Fx3) -> int {
    cross_spec(p1.x - p0.x, p1.y - p0.y, p2.x - p0.x, p2.y - p0.y)
}

/// The center of pixel index `p`, in fixed-point screen units.
pub open spec fn ctr(p: int) -> int {
    p * FX_ONE + FX_HALF
}

/// The edge function of the edge from `b` to `c` at a point: positive
/// on the side the triangle's interior lies on for counterclockwise
/// winding.
pub open spec fn wgt(b: Fx3, c: Fx3, cx: int, cy: int) -> int {
    cross_spec(c.x - b.x, c.y - b.y, cx - b.x, cy - b.y)
}

/// The tie-break rule for centers exactly on an edge: the edge claims
/// them when it points downward, or leftward along a horizontal.
pub open spec fn edge_accepts(dx: int, dy: int) -> bool {
    dy > 0 || (dy == 0 && dx < 0)
}

/// One edge test: strictly inside, or on the edge and accepted by
/// the tie-break rule.
pub open spec fn acc(w: int, dx: int, dy: int) -> bool {
    w > 0 || (w == 0 && edge_accepts(dx, dy))
}

/// Coverage of a point against a counterclockwise triangle.
pub open spec fn covered_ccw(a: Fx3, b: Fx3, c: Fx3, cx: int, cy: int) -> bool {
    &&& acc(wgt(b, c, cx, cy), c.x - b.x, c.y - b.y)
    &&& acc(wgt(c, a, cx, cy), a.x - c.x, a.y - c.y)
    &&& acc(wgt(a, b, cx, cy), b.x - a.x, b.y - a.y)
}

/// Whether the triangle over the three transformed vertices covers
/// the pixel `(px, py)`. A clockwise triangle is reoriented; one with
/// zero signed area covers nothing.
pub open spec fn tri_covered(v0: Vertex, v1: Vertex, v2: Vertex, px: int, py: int) -> bool {
    let p0 = v0.transformed_position;
    let p1 = v1.transformed_position;
    let p2 = v2.transformed_position;
    let a2 = tri_area2_spec(p0, p1, p2);
    if a2 > 0 {
        covered_ccw(p0, p1, p2, ctr(px), ctr(py))
    } else if a2 < 0 {
        covered_ccw(p0, p2, p1, ctr(px), ctr(py))
    } else {
        false
    }
}

/// Barycentric combination of one attribute, floored: the weighted
/// sum over the total weight.
pub open spec fn interp_spec(wa: int, wb: int, wc: int, va: int, vb: int, vc: int, s: int) -> int {
    (wa * va + wb * vb + wc * vc) / s
}

/// The fragment emitted for a covered pixel: depth, normal and the
/// local reference coordinate (the vertices' texture coordinates) all
/// interpolated barycentrically; the lighting term is the clamped z
/// component of the interpolated normal, its dot product with the
/// fixed light direction along +z.
pub open spec fn tri_frag(v0: Vertex, v1: Vertex, v2: Vertex, px: int, py: int) -> Fragment {
    let flip = tri_area2_spec(
        v0.transformed_position,
        v1.transformed_position,
        v2.transformed_position,
    ) < 0;
    let a = v0;
    let b = if flip {
        v2
    } else {
        v1
    };
    let c = if flip {
        v1
    } else {
        v2
    };
    let cx = ctr(px);
    let cy = ctr(py);
    let wa = wgt(b.transformed_position, c.transformed_position, cx, cy);
    let wb = wgt(c.transformed_position, a.transformed_position, cx, cy);
    let wc = wgt(a.transformed_position, b.transformed_position, cx, cy);
    let s = wa + wb + wc;
    let nz = interp_spec(
        wa,
        wb,
        wc,
        a.transformed_normal.z as int,
        b.transformed_normal.z as int,
        c.transformed_normal.z as int,
        s,
    );
    Fragment {
        x: px as usize,
        y: py as usize,
        vertex_position: Fx2 {
            x: interp_spec(
                wa,
                wb,
                wc,
                a.tex_coords.x as int,
                b.tex_coords.x as int,
                c.tex_coords.x as int,
                s,
            ) as i64,
            y: interp_spec(
                wa,
                wb,
                wc,
                a.tex_coords.y as int,
                b.tex_coords.y as int,
                c.tex_coords.y as int,
                s,
            ) as i64,
        },
        normal: Fx3 {
            x: interp_spec(
                wa,
                wb,
                wc,
                a.transformed_normal.x as int,
                b.transformed_normal.x as int,
                c.transformed_normal.x as int,
                s,
            ) as i64,
            y: interp_spec(
                wa,
                wb,
                wc,
                a.transformed_normal.y as int,
                b.transformed_normal.y as int,
                c.transformed_normal.y as int,
                s,
            ) as i64,
            z: nz as i64,
        },
        intensity: fx_clamp01(nz) as i64,
        depth: interp_spec(
            wa,
            wb,
            wc,
            a.transformed_position.z as int,
            b.transformed_position.z as int,
            c.transformed_position.z as int,
            s,
        ) as i64,
    }
}

/// The fragments of row `py` at pixel columns `px` and rightward,
/// left to right.
pub open spec fn row_frags(
    v0: Vertex,
    v1: Vertex,
    v2: Vertex,
    w: int,
    py: int,
    px: int,
) -> Seq<Fragment>
    decreases w - px,
{
    if px >= w {
        Seq::empty()
    } else {
        let rest = row_frags(v0, v1, v2, w, py, px + 1);
        if tri_covered(v0, v1, v2, px, py) {
            seq![tri_frag(v0, v1, v2, px, py)] + rest
        } else {
            rest
        }
    }
}

/// All fragments of the triangle on a `w` by `h` screen, from row
/// `py` downward: the rasterizer's entire output, in order.
pub open spec fn screen_frags(
    v0: Vertex,
    v1: Vertex,
    v2: Vertex,
    w: int,
    h: int,
    py: int,
) -> Seq<Fragment>
    decreases h - py,
{
    if py >= h {
        Seq::empty()
    } else {
        row_frags(v0, v1, v2, w, py, 0) + screen_frags(v0, v1, v2, w, h, py + 1)
    }
}

/// The coordinates a vertex must carry before rasterization: screen
/// position, normal and texture coordinates all in the working range.
pub open spec fn vertex_raster_ok(v: Vertex) -> bool {
    &&& fx_ok(v.transformed_position.x as int)
    &&& fx_ok(v.transformed_position.y as int)
    &&& fx_ok(v.transformed_position.z as int)
    &&& fx_ok(v.transformed_normal.x as int)
    &&& fx_ok(v.transformed_normal.y as int)
    &&& fx_ok(v.transformed_normal.z as int)
    &&& fx_ok(v.tex_coords.x as int)
    &&& fx_ok(v.tex_coords.y as int)
}

/// What the rasterizer guarantees of every fragment it emits: the
/// shader inputs are in the working range and the lighting term is a
/// fraction of one unit.
pub open spec fn fragment_ok(f: Fragment) -> bool {
    &&& fx_ok(f.vertex_position.x as int)
    &&& fx_ok(f.vertex_position.y as int)
    &&& fx_ok(f.normal.x as int)
    &&& fx_ok(f.normal.y as int)
    &&& fx_ok(f.normal.z as int)
    &&& 0 <= f.intensity <= FX_ONE
    &&& fx_ok(f.depth as int)
}

/// A covered pixel's fragment is well formed and sits at that pixel.
pub proof fn lemma_frag_ok(v0: Vertex, v1: Vertex, v2: Vertex, px: int, py: int)
    requires
        vertex_raster_ok(v0),
        vertex_raster_ok(v1),
        vertex_raster_ok(v2),
        tri_covered(v0, v1, v2, px, py),
        0 <= px < DIM_MAX,
        0 <= py < DIM_MAX,
    ensures
        fragment_ok(tri_frag(v0, v1, v2, px, py)),
        tri_frag(v0, v1, v2, px, py).x == px,
        tri_frag(v0, v1, v2, px, py).y == py,
    decreases 0int,
{
    let p0 = v0.transformed_position;
    let p1 = v1.transformed_position;
    let p2 = v2.transformed_position;
    let a2 = tri_area2_spec(p0, p1, p2);
    let flip = a2 < 0;
    let b = if flip {
        v2
    } else {
        v1
    };
    let c = if flip {
        v1
    } else {
        v2
    };
    let cx = ctr(px);
    let cy = ctr(py);
    let wa = wgt(b.transformed_position, c.transformed_position, cx, cy);
    let wb = wgt(c.transformed_position, v0.transformed_position, cx, cy);
    let wc = wgt(v0.transformed_position, b.transformed_position, cx, cy);
    let s = wa + wb + wc;
    lemma_barycentric_identity(
        v0.transformed_position,
        b.transformed_position,
        c.transformed_position,
        cx,
        cy,
    );
    if flip {
        lemma_flip_area(p0, p1, p2);
    }
    assert(s > 0);
    let l = FX_LIMIT as int;
    lemma_interp_range(wa, wb, wc, v0.tex_coords.x as int, b.tex_coords.x as int,
        c.tex_coords.x as int, s, l);
    lemma_interp_range(wa, wb, wc, v0.tex_coords.y as int, b.tex_coords.y as int,
        c.tex_coords.y as int, s, l);
    lemma_interp_range(
        wa,
        wb,
        wc,
        v0.transformed_normal.x as int,
        b.transformed_normal.x as int,
        c.transformed_normal.x as int,
        s,
        l,
    );
    lemma_interp_range(
        wa,
        wb,
        wc,
        v0.transformed_normal.y as int,
        b.transformed_normal.y as int,
        c.transformed_normal.y as int,
        s,
        l,
    );
    lemma_interp_range(
        wa,
        wb,
        wc,
        v0.transformed_normal.z as int,
        b.transformed_normal.z as int,
        c.transformed_normal.z as int,
        s,
        l,
    );
    lemma_interp_range(
        wa,
        wb,
        wc,
        v0.transformed_position.z as int,
        b.transformed_position.z as int,
        c.transformed_position.z as int,
        s,
        l,
    );
}

/// Every fragment of a row is a covered pixel of that row, carries
/// exactly the interpolated attributes, and the columns strictly
/// increase left to right.
pub proof fn lemma_row_frags_props(v0: Vertex, v1: Vertex, v2: Vertex, w: int, py: int, px: int)
    requires
        vertex_raster_ok(v0),
        vertex_raster_ok(v1),
        vertex_raster_ok(v2),
        0 <= px,
        0 <= py < DIM_MAX,
        w <= DIM_MAX,
    ensures
        forall|i: int|
            0 <= i < row_frags(v0, v1, v2, w, py, px).len() ==> {
                let f = #[trigger] row_frags(v0, v1, v2, w, py, px)[i];
                &&& px <= f.x < w
                &&& f.y == py
                &&& tri_covered(v0, v1, v2, f.x as int, py)
                &&& f == tri_frag(v0, v1, v2, f.x as int, py)
                &&& fragment_ok(f)
            },
        forall|i: int, j: int|
            0 <= i < j < row_frags(v0, v1, v2, w, py, px).len() ==> row_frags(
                v0,
                v1,
                v2,
                w,
                py,
                px,
            )[i].x < row_frags(v0, v1, v2, w, py, px)[j].x,
    decreases w - px,
{
    if px < w {
        lemma_row_frags_props(v0, v1, v2, w, py, px + 1);
        let s = row_frags(v0, v1, v2, w, py, px);
        let rest = row_frags(v0, v1, v2, w, py, px + 1);
        if tri_covered(v0, v1, v2, px, py) {
            lemma_frag_ok(v0, v1, v2, px, py);
            assert forall|i: int| 0 <= i < s.len() implies {
                let f = #[trigger] s[i];
                &&& px <= f.x < w
                &&& f.y == py
                &&& tri_covered(v0, v1, v2, f.x as int, py)
                &&& f == tri_frag(v0, v1, v2, f.x as int, py)
                &&& fragment_ok(f)
            } by {
                if i == 0 {
                    assert(s[0] == tri_frag(v0, v1, v2, px, py));
                } else {
                    assert(s[i] == rest[i - 1]);
                }
            }
            assert forall|i: int, j: int| 0 <= i < j < s.len() implies s[i].x < s[j].x by {
                if i == 0 {
                    assert(s[0] == tri_frag(v0, v1, v2, px, py));
                    assert(s[j] == rest[j - 1]);
                } else {
                    assert(s[i] == rest[i - 1]);
                    assert(s[j] == rest[j - 1]);
                }
            }
        }
    }
}

/// Every fragment of the whole screen enumeration is a covered
/// in-bounds pixel with exactly the interpolated attributes, and the
/// pixels strictly increase in row-major order — so no pixel appears
/// twice.
pub proof fn lemma_screen_frags_props(v0: Vertex, v1: Vertex, v2: Vertex, w: int, h: int, py: int)
    requires
        vertex_raster_ok(v0),
        vertex_raster_ok(v1),
        vertex_raster_ok(v2),
        0 <= py,
        w <= DIM_MAX,
        h <= DIM_MAX,
    ensures
        forall|i: int|
            0 <= i < screen_frags(v0, v1, v2, w, h, py).len() ==> {
                let f = #[trigger] screen_frags(v0, v1, v2, w, h, py)[i];
                &&& 0 <= f.x < w
                &&& py <= f.y < h
                &&& tri_covered(v0, v1, v2, f.x as int, f.y as int)
                &&& f == tri_frag(v0, v1, v2, f.x as int, f.y as int)
                &&& fragment_ok(f)
            },
        forall|i: int, j: int|
            #![trigger screen_frags(v0, v1, v2, w, h, py)[i], screen_frags(v0, v1, v2, w, h, py)[j]]
            0 <= i < j < screen_frags(v0, v1, v2, w, h, py).len() ==> {
                let fi = screen_frags(v0, v1, v2, w, h, py)[i];
                let fj = screen_frags(v0, v1, v2, w, h, py)[j];
                fi.y < fj.y || (fi.y == fj.y && fi.x < fj.x)
            },
    decreases h - py,
{
    if py < h {
        let row = row_frags(v0, v1, v2, w, py, 0);
        let rest = screen_frags(v0, v1, v2, w, h, py + 1);
        lemma_row_frags_props(v0, v1, v2, w, py, 0);
        lemma_screen_frags_props(v0, v1, v2, w, h, py + 1);
        assert forall|i: int| 0 <= i < screen_frags(v0, v1, v2, w, h, py).len() implies {
            let f = #[trigger] screen_frags(v0, v1, v2, w, h, py)[i];
            &&& 0 <= f.x < w
            &&& py <= f.y < h
            &&& tri_covered(v0, v1, v2, f.x as int, f.y as int)
            &&& f == tri_frag(v0, v1, v2, f.x as int, f.y as int)
            &&& fragment_ok(f)
        } by {
            if i < row.len() {
                assert(screen_frags(v0, v1, v2, w, h, py)[i] == row[i]);
            } else {
                assert(screen_frags(v0, v1, v2, w, h, py)[i] == rest[i - row.len()]);
            }
        }
    }
}

/// A zero-area triangle yields no fragments at all.
pub proof fn lemma_degenerate_no_fragments(v0: Vertex, v1: Vertex, v2: Vertex, w: int, h: int)
    requires
        tri_area2_spec(
            v0.transformed_position,
            v1.transformed_position,
            v2.transformed_position,
        ) == 0,
    ensures
        screen_frags(v0, v1, v2, w, h, 0) == Seq::<Fragment>::empty(),
{
    lemma_screen_empty(v0, v1, v2, w, h, 0);
}

/// Every covered pixel inside the screen appears in the enumeration:
/// together with the soundness and ordering above, the rasterizer
/// yields exactly the covered pixels, each once.
pub proof fn lemma_screen_frags_complete(
    v0: Vertex,
    v1: Vertex,
    v2: Vertex,
    w: int,
    h: int,
    py: int,
    qx: int,
    qy: int,
)
    requires
        0 <= qx < w,
        py <= qy < h,
        tri_covered(v0, v1, v2, qx, qy),
    ensures
        screen_frags(v0, v1, v2, w, h, py).contains(tri_frag(v0, v1, v2, qx, qy)),
    decreases h - py,
{
    let row = row_frags(v0, v1, v2, w, py, 0);
    let rest = screen_frags(v0, v1, v2, w, h, py + 1);
    if py == qy {
        lemma_row_frags_complete(v0, v1, v2, w, py, 0, qx);
        let i = choose|i: int| 0 <= i < row.len() && row[i] == tri_frag(v0, v1, v2, qx, qy);
        assert(screen_frags(v0, v1, v2, w, h, py)[i] == tri_frag(v0, v1, v2, qx, qy));
    } else {
        lemma_screen_frags_complete(v0, v1, v2, w, h, py + 1, qx, qy);
        let i = choose|i: int|
            0 <= i < rest.len() && rest[i] == tri_frag(v0, v1, v2, qx, qy);
        assert(screen_frags(v0, v1, v2, w, h, py)[row.len() + i] == tri_frag(v0, v1, v2, qx, qy));
    }
}

proof fn lemma_row_frags_complete(
    v0: Vertex,
    v1: Vertex,
    v2: Vertex,
    w: int,
    py: int,
    px: int,
    qx: int,
)
    requires
        px <= qx < w,
        tri_covered(v0, v1, v2, qx, py),
    ensures
        row_frags(v0, v1, v2, w, py, px).contains(tri_frag(v0, v1, v2, qx, py)),
    decreases w - px,
{
    let s = row_frags(v0, v1, v2, w, py, px);
    let rest = row_frags(v0, v1, v2, w, py, px + 1);
    if px == qx {
        assert(s[0] == tri_frag(v0, v1, v2, qx, py));
    } else {
        lemma_row_frags_complete(v0, v1, v2, w, py, px + 1, qx);
        let i = choose|i: int| 0 <= i < rest.len() && rest[i] == tri_frag(v0, v1, v2, qx, py);
        if tri_covered(v0, v1, v2, px, py) {
            assert(s[1 + i] == tri_frag(v0, v1, v2, qx, py));
        } else {
            assert(s[i] == tri_frag(v0, v1, v2, qx, py));
        }
    }
}

/// Two counterclockwise triangles sharing an edge partition the
/// pixels whose centers are strictly inside both triangles' other
/// edges: whether the center is on the shared edge or beside it,
/// exactly one of the two triangles covers the pixel.
pub proof fn lemma_shared_edge_partition(
    t1a: Vertex,
    t1b: Vertex,
    t1c: Vertex,
    t2a: Vertex,
    t2b: Vertex,
    t2d: Vertex,
    px: int,
    py: int,
)
    requires
        t2a.transformed_position == t1b.transformed_position,
        t2b.transformed_position == t1a.transformed_position,
        tri_area2_spec(
            t1a.transformed_position,
            t1b.transformed_position,
            t1c.transformed_position,
        ) > 0,
        tri_area2_spec(
            t2a.transformed_position,
            t2b.transformed_position,
            t2d.transformed_position,
        ) > 0,
        wgt(t1b.transformed_position, t1c.transformed_position, ctr(px), ctr(py)) > 0,
        wgt(t1c.transformed_position, t1a.transformed_position, ctr(px), ctr(py)) > 0,
        wgt(t2b.transformed_position, t2d.transformed_position, ctr(px), ctr(py)) > 0,
        wgt(t2d.transformed_position, t2a.transformed_position, ctr(px), ctr(py)) > 0,
    ensures
        tri_covered(t1a, t1b, t1c, px, py) != tri_covered(t2a, t2b, t2d, px, py),
{
    let a = t1a.transformed_position;
    let b = t1b.transformed_position;
    let cx = ctr(px);
    let cy = ctr(py);
    let w1 = wgt(a, b, cx, cy);
    let w2 = wgt(b, a, cx, cy);
    let dx = a.x - b.x;
    let dy = a.y - b.y;
    let gx = cx - a.x;
    let gy = cy - a.y;
    assert(w2 == dx * (gy + dy) - dy * (gx + dx));
    assert(dx * (gy + dy) == dx * gy + dx * dy) by {
        vstd::arithmetic::mul::lemma_mul_is_distributive_add(dx, gy, dy);
    }
    assert(dy * (gx + dx) == dy * gx + dy * dx) by {
        vstd::arithmetic::mul::lemma_mul_is_distributive_add(dy, gx, dx);
    }
    assert(dx * dy == dy * dx) by {
        lemma_mul_is_commutative(dx, dy);
    }
    assert(w1 == (-dx) * gy - (-dy) * gx);
    assert((-dx) * gy == -(dx * gy)) by {
        vstd::arithmetic::mul::lemma_mul_unary_negation(dx, gy);
    }
    assert((-dy) * gx == -(dy * gx)) by {
        vstd::arithmetic::mul::lemma_mul_unary_negation(dy, gx);
    }
    assert(w2 == -w1);
    if w1 == 0 {
        if b.x - a.x == 0 && b.y - a.y == 0 {
            assert(tri_area2_spec(a, b, t1c.transformed_position) == 0) by (nonlinear_arith)
                requires
                    b.x - a.x == 0 && b.y - a.y == 0,
            ;
        }
        assert(edge_accepts(b.x - a.x, b.y - a.y) != edge_accepts(a.x - b.x, a.y - b.y));
    }
}
proof fn lemma_barycentric_identity(a: Fx3, b: Fx3, c: Fx3, cx: int, cy: int)
    ensures
        wgt(b, c, cx, cy) + wgt(c, a, cx, cy) + wgt(a, b, cx, cy) == tri_area2_spec(a, b, c),
        wgt(b, c, cx, cy) * a.x + wgt(c, a, cx, cy) * b.x + wgt(a, b, cx, cy) * c.x
            == tri_area2_spec(a, b, c) * cx,
        wgt(b, c, cx, cy) * a.y + wgt(c, a, cx, cy) * b.y + wgt(a, b, cx, cy) * c.y
            == tri_area2_spec(a, b, c) * cy,
{
    // Everything is translation invariant; work with the offsets of
    // b, c and the point from a.
    let ux = b.x - a.x;
    let uy = b.y - a.y;
    let vx = c.x - a.x;
    let vy = c.y - a.y;
    let qx = cx - a.x;
    let qy = cy - a.y;
    let wa = wgt(b, c, cx, cy);
    let wb = wgt(c, a, cx, cy);
    let wc = wgt(a, b, cx, cy);
    let s = tri_area2_spec(a, b, c);
    assert(wa == (vx - ux) * (qy - uy) - (vy - uy) * (qx - ux));
    assert((vx - ux) * (qy - uy) == vx * qy - vx * uy - ux * qy + ux * uy) by (nonlinear_arith);
    assert((vy - uy) * (qx - ux) == vy * qx - vy * ux - uy * qx + uy * ux) by (nonlinear_arith);
    assert(ux * uy == uy * ux) by (nonlinear_arith);
    assert(wa == (vx * qy - vy * qx) - (vx * uy - vy * ux) - (ux * qy - uy * qx));
    assert(wb == (-vx) * (qy - vy) - (-vy) * (qx - vx));
    assert((-vx) * (qy - vy) == -(vx * qy) + vx * vy) by (nonlinear_arith);
    assert((-vy) * (qx - vx) == -(vy * qx) + vy * vx) by (nonlinear_arith);
    assert(vx * vy == vy * vx) by (nonlinear_arith);
    assert(wb == -(vx * qy - vy * qx));
    assert(wc == ux * qy - uy * qx);
    assert(s == ux * vy - uy * vx);
    assert(vy * ux - vx * uy == ux * vy - uy * vx) by (nonlinear_arith);
    assert(wa + wb + wc == s);
    // The weighted sums of the vertex coordinates: split each vertex
    // into a plus its offset, distribute, and finish on the offsets.
    assert(wb * b.x == wb * a.x + wb * ux) by {
        lemma_mul_is_distributive_add(wb, a.x as int, ux);
    }
    assert(wc * c.x == wc * a.x + wc * vx) by {
        lemma_mul_is_distributive_add(wc, a.x as int, vx);
    }
    assert(wa * a.x + wb * a.x + wc * a.x == s * a.x) by {
        lemma_mul_is_distributive_add_other_way(a.x as int, wa + wb, wc);
        lemma_mul_is_distributive_add_other_way(a.x as int, wa, wb);
        lemma_mul_is_commutative(a.x as int, wa);
        lemma_mul_is_commutative(a.x as int, wb);
        lemma_mul_is_commutative(a.x as int, wc);
        lemma_mul_is_commutative(a.x as int, wa + wb + wc);
    }
    assert(s * cx == s * a.x + s * qx) by {
        lemma_mul_is_distributive_add(s, a.x as int, qx);
    }
    assert((-(vx * qy - vy * qx)) * ux + (ux * qy - uy * qx) * vx == (ux * vy - uy * vx)
        * qx) by (nonlinear_arith);
    assert(wb * ux + wc * vx == s * qx);
    assert(wb * b.y == wb * a.y + wb * uy) by {
        lemma_mul_is_distributive_add(wb, a.y as int, uy);
    }
    assert(wc * c.y == wc * a.y + wc * vy) by {
        lemma_mul_is_distributive_add(wc, a.y as int, vy);
    }
    assert(wa * a.y + wb * a.y + wc * a.y == s * a.y) by {
        lemma_mul_is_distributive_add_other_way(a.y as int, wa + wb, wc);
        lemma_mul_is_distributive_add_other_way(a.y as int, wa, wb);
        lemma_mul_is_commutative(a.y as int, wa);
        lemma_mul_is_commutative(a.y as int, wb);
        lemma_mul_is_commutative(a.y as int, wc);
        lemma_mul_is_commutative(a.y as int, wa + wb + wc);
    }
    assert(s * cy == s * a.y + s * qy) by {
        lemma_mul_is_distributive_add(s, a.y as int, qy);
    }
    assert((-(vx * qy - vy * qx)) * uy + (ux * qy - uy * qx) * vy == (ux * vy - uy * vx)
        * qy) by (nonlinear_arith);
    assert(wb * uy + wc * vy == s * qy);
}

/// A covered pixel's center lies within the triangle's bounding box.
proof fn lemma_covered_in_box(v0: Vertex, v1: Vertex, v2: Vertex, px: int, py: int)
    requires
        tri_covered(v0, v1, v2, px, py),
    ensures
        min3(
            v0.transformed_position.x as int,
            v1.transformed_position.x as int,
            v2.transformed_position.x as int,
        ) <= ctr(px) <= max3(
            v0.transformed_position.x as int,
            v1.transformed_position.x as int,
            v2.transformed_position.x as int,
        ),
        min3(
            v0.transformed_position.y as int,
            v1.transformed_position.y as int,
            v2.transformed_position.y as int,
        ) <= ctr(py) <= max3(
            v0.transformed_position.y as int,
            v1.transformed_position.y as int,
            v2.transformed_position.y as int,
        ),
{
    let p0 = v0.transformed_position;
    let p1 = v1.transformed_position;
    let p2 = v2.transformed_position;
    let a2 = tri_area2_spec(p0, p1, p2);
    let cx = ctr(px);
    let cy = ctr(py);
    if a2 > 0 {
        lemma_weighted_in_box(p0, p1, p2, cx, cy);
    } else {
        lemma_flip_area(p0, p1, p2);
        lemma_weighted_in_box(p0, p2, p1, cx, cy);
    }
}

/// Flipping two vertices negates twice the signed area.
proof fn lemma_flip_area(p0: Fx3, p1: Fx3, p2: Fx3)
    ensures
        tri_area2_spec(p0, p2, p1) == -tri_area2_spec(p0, p1, p2),
{
    assert(tri_area2_spec(p0, p2, p1) == -tri_area2_spec(p0, p1, p2)) by (nonlinear_arith);
}

spec fn min3(a: int, b: int, c: int) -> int {
    if a <= b && a <= c {
        a
    } else if b <= c {
        b
    } else {
        c
    }
}

spec fn max3(a: int, b: int, c: int) -> int {
    if a >= b && a >= c {
        a
    } else if b >= c {
        b
    } else {
        c
    }
}

/// For a counterclockwise triangle covering a point, the point is a
/// convex combination of the vertices, hence inside their box.
proof fn lemma_weighted_in_box(a: Fx3, b: Fx3, c: Fx3, cx: int, cy: int)
    requires
        tri_area2_spec(a, b, c) > 0,
        covered_ccw(a, b, c, cx, cy),
    ensures
        min3(a.x as int, b.x as int, c.x as int) <= cx <= max3(a.x as int, b.x as int, c.x as int),
        min3(a.y as int, b.y as int, c.y as int) <= cy <= max3(a.y as int, b.y as int, c.y as int),
{
    let wa = wgt(b, c, cx, cy);
    let wb = wgt(c, a, cx, cy);
    let wc = wgt(a, b, cx, cy);
    let s = tri_area2_spec(a, b, c);
    lemma_barycentric_identity(a, b, c, cx, cy);
    lemma_convex_bound(wa, wb, wc, a.x as int, b.x as int, c.x as int, s, cx);
    lemma_convex_bound(wa, wb, wc, a.y as int, b.y as int, c.y as int, s, cy);
}

/// A weighted average with non-negative weights lies between the
/// least and greatest of the values.
proof fn lemma_convex_bound(wa: int, wb: int, wc: int, va: int, vb: int, vc: int, s: int, v: int)
    requires
        wa >= 0,
        wb >= 0,
        wc >= 0,
        s == wa + wb + wc,
        s > 0,
        wa * va + wb * vb + wc * vc == s * v,
    ensures
        min3(va, vb, vc) <= v <= max3(va, vb, vc),
{
    let lo = min3(va, vb, vc);
    let hi = max3(va, vb, vc);
    lemma_mul_inequality(lo, va, wa);
    lemma_mul_inequality(lo, vb, wb);
    lemma_mul_inequality(lo, vc, wc);
    lemma_mul_inequality(va, hi, wa);
    lemma_mul_inequality(vb, hi, wb);
    lemma_mul_inequality(vc, hi, wc);
    assert(wa * lo + wb * lo + wc * lo <= s * v <= wa * hi + wb * hi + wc * hi) by {
        lemma_mul_is_commutative(lo, wa);
        lemma_mul_is_commutative(lo, wb);
        lemma_mul_is_commutative(lo, wc);
        lemma_mul_is_commutative(va, wa);
        lemma_mul_is_commutative(vb, wb);
        lemma_mul_is_commutative(vc, wc);
        lemma_mul_is_commutative(hi, wa);
        lemma_mul_is_commutative(hi, wb);
        lemma_mul_is_commutative(hi, wc);
    }
    assert(s * lo <= s * v <= s * hi) by (nonlinear_arith)
        requires
            wa * lo + wb * lo + wc * lo <= s * v <= wa * hi + wb * hi + wc * hi,
            s == wa + wb + wc,
    ;
    if v < lo {
        lemma_mul_strict_inequality(v, lo, s);
        lemma_mul_is_commutative(v, s);
        lemma_mul_is_commutative(lo, s);
        assert(false);
    }
    if v > hi {
        lemma_mul_strict_inequality(hi, v, s);
        lemma_mul_is_commutative(v, s);
        lemma_mul_is_commutative(hi, s);
        assert(false);
    }
}

/// Skipping one uncovered pixel leaves a row's fragments unchanged.
proof fn lemma_row_skip(v0: Vertex, v1: Vertex, v2: Vertex, w: int, py: int, px: int)
    requires
        px < w,
        !tri_covered(v0, v1, v2, px, py),
    ensures
        row_frags(v0, v1, v2, w, py, px) == row_frags(v0, v1, v2, w, py, px + 1),
{
}

/// A row whose remaining pixels are all uncovered has no fragments.
proof fn lemma_row_empty(v0: Vertex, v1: Vertex, v2: Vertex, w: int, py: int, px: int)
    requires
        forall|k: int| px <= k < w ==> !tri_covered(v0, v1, v2, k, py),
    ensures
        row_frags(v0, v1, v2, w, py, px) == Seq::<Fragment>::empty(),
    decreases w - px,
{
    if px < w {
        lemma_row_empty(v0, v1, v2, w, py, px + 1);
    }
}

/// A stretch of uncovered pixels can be skipped in one step.
proof fn lemma_row_eq(v0: Vertex, v1: Vertex, v2: Vertex, w: int, py: int, pa: int, pb: int)
    requires
        pa <= pb <= w,
        forall|k: int| pa <= k < pb ==> !tri_covered(v0, v1, v2, k, py),
    ensures
        row_frags(v0, v1, v2, w, py, pa) == row_frags(v0, v1, v2, w, py, pb),
    decreases pb - pa,
{
    if pa < pb {
        lemma_row_eq(v0, v1, v2, w, py, pa + 1, pb);
    }
}

/// A triangle that covers no pixel at all produces no fragments.
proof fn lemma_screen_empty(v0: Vertex, v1: Vertex, v2: Vertex, w: int, h: int, py: int)
    requires
        forall|px: int, k: int| !tri_covered(v0, v1, v2, px, k),
    ensures
        screen_frags(v0, v1, v2, w, h, py) == Seq::<Fragment>::empty(),
    decreases h - py,
{
    if py < h {
        lemma_row_empty(v0, v1, v2, w, py, 0);
        lemma_screen_empty(v0, v1, v2, w, h, py + 1);
        assert(screen_frags(v0, v1, v2, w, h, py) =~= Seq::<Fragment>::empty());
    }
}

/// The floor and remainder bounds of division by one pixel's span.
proof fn lemma_floor_props(m: int)
    ensures
        (m / (FX_ONE as int)) * FX_ONE <= m < (m / (FX_ONE as int)) * FX_ONE + FX_ONE,
{
    lemma_fundamental_div_mod(m, FX_ONE as int);
    vstd::arithmetic::div_mod::lemma_mod_bound(m, FX_ONE as int);
    lemma_mul_is_commutative(m / (FX_ONE as int), FX_ONE as int);
}

/// Bound of one cross product over arguments in twice the working
/// range.
const CROSS_ARG: i64 = 1073741824;

fn cross_e(ax: i64, ay: i64, bx: i64, by: i64) -> (r: i64)
    requires
        -CROSS_ARG <= ax <= CROSS_ARG,
        -CROSS_ARG <= ay <= CROSS_ARG,
        -CROSS_ARG <= bx <= CROSS_ARG,
        -CROSS_ARG <= by <= CROSS_ARG,
    ensures
        r == cross_spec(ax as int, ay as int, bx as int, by as int),
        -0x2000_0000_0000_0000 <= r <= 0x2000_0000_0000_0000,
{
    proof {
        lemma_mul_bounds(ax as int, by as int, CROSS_ARG as int);
        lemma_mul_bounds(ay as int, bx as int, CROSS_ARG as int);
    }
    ax * by - ay * bx
}

fn acc_e(w: i64, dx: i64, dy: i64) -> (r: bool)
    ensures
        r == acc(w as int, dx as int, dy as int),
{
    w > 0 || (w == 0 && (dy > 0 || (dy == 0 && dx < 0)))
}

fn min3e(a: i64, b: i64, c: i64) -> (r: i64)
    ensures
        r == min3(a as int, b as int, c as int),
{
    if a <= b && a <= c {
        a
    } else if b <= c {
        b
    } else {
        c
    }
}

fn max3e(a: i64, b: i64, c: i64) -> (r: i64)
    ensures
        r == max3(a as int, b as int, c as int),
{
    if a >= b && a >= c {
        a
    } else if b >= c {
        b
    } else {
        c
    }
}

/// A barycentric combination with non-negative weights stays between
/// the least and the greatest value.
proof fn lemma_interp_range(wa: int, wb: int, wc: int, va: int, vb: int, vc: int, s: int, l: int)
    requires
        wa >= 0,
        wb >= 0,
        wc >= 0,
        s == wa + wb + wc,
        s > 0,
        0 <= l,
        -l <= va <= l,
        -l <= vb <= l,
        -l <= vc <= l,
    ensures
        -l <= interp_spec(wa, wb, wc, va, vb, vc, s) <= l,
{
    let num = wa * va + wb * vb + wc * vc;
    lemma_mul_inequality(-l, va, wa);
    lemma_mul_inequality(-l, vb, wb);
    lemma_mul_inequality(-l, vc, wc);
    lemma_mul_inequality(va, l, wa);
    lemma_mul_inequality(vb, l, wb);
    lemma_mul_inequality(vc, l, wc);
    lemma_mul_is_commutative(-l, wa);
    lemma_mul_is_commutative(-l, wb);
    lemma_mul_is_commutative(-l, wc);
    lemma_mul_is_commutative(va, wa);
    lemma_mul_is_commutative(vb, wb);
    lemma_mul_is_commutative(vc, wc);
    lemma_mul_is_commutative(l, wa);
    lemma_mul_is_commutative(l, wb);
    lemma_mul_is_commutative(l, wc);
    assert(wa * (-l) + wb * (-l) + wc * (-l) == s * (-l)) by (nonlinear_arith)
        requires
            s == wa + wb + wc,
    ;
    assert(wa * l + wb * l + wc * l == s * l) by (nonlinear_arith)
        requires
            s == wa + wb + wc,
    ;
    lemma_div_is_ordered(s * (-l), num, s);
    lemma_div_is_ordered(num, s * l, s);
    lemma_div_multiples_vanish(-l, s);
    lemma_div_multiples_vanish(l, s);
    lemma_mul_is_commutative(s, -l);
    lemma_mul_is_commutative(s, l);
}

fn interp_e(wa: i64, wb: i64, wc: i64, va: i64, vb: i64, vc: i64, s: i64) -> (r: i64)
    requires
        wa >= 0,
        wb >= 0,
        wc >= 0,
        s == wa + wb + wc,
        s > 0,
        -FX_LIMIT <= va <= FX_LIMIT,
        -FX_LIMIT <= vb <= FX_LIMIT,
        -FX_LIMIT <= vc <= FX_LIMIT,
    ensures
        r == interp_spec(wa as int, wb as int, wc as int, va as int, vb as int, vc as int,
        s as int),
        -FX_LIMIT <= r <= FX_LIMIT,
{
    proof {
        crate::fixed::lemma_mul_bounds2(wa as int, va as int, 0x8000_0000_0000_0000, FX_LIMIT as int);
        crate::fixed::lemma_mul_bounds2(wb as int, vb as int, 0x8000_0000_0000_0000, FX_LIMIT as int);
        crate::fixed::lemma_mul_bounds2(wc as int, vc as int, 0x8000_0000_0000_0000, FX_LIMIT as int);
        lemma_interp_range(
            wa as int,
            wb as int,
            wc as int,
            va as int,
            vb as int,
            vc as int,
            s as int,
            FX_LIMIT as int,
        );
    }
    let num: i128 = (wa as i128) * (va as i128) + (wb as i128) * (vb as i128) + (wc as i128) * (
    vc as i128);
    let q = floor_div_i128(num, s as i128);
    q as i64
}

/// Rasterizes one triangle of transformed vertices against a screen
/// of the given size: exactly the covered pixels inside the screen,
/// row by row, each carrying its interpolated attributes. A triangle
/// with zero signed area yields no fragments.
pub fn triangle(v0: &Vertex, v1: &Vertex, v2: &Vertex, width: usize, height: usize) -> (r: Vec<
    Fragment,
>)
    requires
        1 <= width <= DIM_MAX,
        1 <= height <= DIM_MAX,
        vertex_raster_ok(*v0),
        vertex_raster_ok(*v1),
        vertex_raster_ok(*v2),
    ensures
        r@ == screen_frags(*v0, *v1, *v2, width as int, height as int, 0),
{
    let ghost wi = width as int;
    let ghost hi = height as int;
    let p0 = v0.transformed_position;
    let p1 = v1.transformed_position;
    let p2 = v2.transformed_position;
    let a2 = cross_e(p1.x - p0.x, p1.y - p0.y, p2.x - p0.x, p2.y - p0.y);
    if a2 == 0 {
        proof {
            lemma_screen_empty(*v0, *v1, *v2, wi, hi, 0);
        }
        return Vec::new();
    }
    let flip = a2 < 0;
    let (b, c) = if flip {
        (v2, v1)
    } else {
        (v1, v2)
    };
    let pa = p0;
    let pb = b.transformed_position;
    let pc = c.transformed_position;
    let minx = min3e(p0.x, p1.x, p2.x);
    let maxx = max3e(p0.x, p1.x, p2.x);
    let miny = min3e(p0.y, p1.y, p2.y);
    let maxy = max3e(p0.y, p1.y, p2.y);
    let qxl = floor_div_i128(minx as i128, FX_ONE as i128) as i64;
    let qxh = floor_div_i128(maxx as i128, FX_ONE as i128) as i64;
    let qyl = floor_div_i128(miny as i128, FX_ONE as i128) as i64;
    let qyh = floor_div_i128(maxy as i128, FX_ONE as i128) as i64;
    proof {
        lemma_floor_props(minx as int);
        lemma_floor_props(maxx as int);
        lemma_floor_props(miny as int);
        lemma_floor_props(maxy as int);
    }
    let px_start: usize = if qxl < 0 {
        0
    } else if qxl > width as i64 {
        width
    } else {
        qxl as usize
    };
    let px_end: usize = if qxh < 0 {
        0
    } else if qxh + 1 > width as i64 {
        width
    } else {
        (qxh + 1) as usize
    };
    let py_start: usize = if qyl < 0 {
        0
    } else if qyl > height as i64 {
        height
    } else {
        qyl as usize
    };
    let py_end: usize = if qyh < 0 {
        0
    } else if qyh + 1 > height as i64 {
        height
    } else {
        (qyh + 1) as usize
    };
    let mut r: Vec<Fragment> = Vec::new();
    let mut py: usize = 0;
    while py < height
        invariant
            py <= height,
            1 <= width <= DIM_MAX,
            1 <= height <= DIM_MAX,
            vertex_raster_ok(*v0),
            vertex_raster_ok(*v1),
            vertex_raster_ok(*v2),
            wi == width as int,
            hi == height as int,
            p0 == v0.transformed_position,
            p1 == v1.transformed_position,
            p2 == v2.transformed_position,
            a2 == tri_area2_spec(p0, p1, p2),
            a2 != 0,
            flip == (a2 < 0),
            *b == if flip {
                *v2
            } else {
                *v1
            },
            *c == if flip {
                *v1
            } else {
                *v2
            },
            pa == p0,
            pb == b.transformed_position,
            pc == c.transformed_position,
            minx == min3(p0.x as int, p1.x as int, p2.x as int),
            maxx == max3(p0.x as int, p1.x as int, p2.x as int),
            miny == min3(p0.y as int, p1.y as int, p2.y as int),
            maxy == max3(p0.y as int, p1.y as int, p2.y as int),
            qxl == minx as int / (FX_ONE as int),
            qxh == maxx as int / (FX_ONE as int),
            qyl == miny as int / (FX_ONE as int),
            qyh == maxy as int / (FX_ONE as int),
            px_start as int == if qxl < 0 {
                0int
            } else if qxl > wi {
                wi
            } else {
                qxl as int
            },
            px_end as int == if qxh < 0 {
                0int
            } else if qxh + 1 > wi {
                wi
            } else {
                qxh + 1
            },
            py_start as int == if qyl < 0 {
                0int
            } else if qyl > hi {
                hi
            } else {
                qyl as int
            },
            py_end as int == if qyh < 0 {
                0int
            } else if qyh + 1 > hi {
                hi
            } else {
                qyh + 1
            },
            screen_frags(*v0, *v1, *v2, wi, hi, 0) == r@ + screen_frags(
                *v0,
                *v1,
                *v2,
                wi,
                hi,
                py as int,
            ),
        decreases height - py,
    {
        let pyi = py as i64;
        if py < py_start || py >= py_end {
            proof {
                assert forall|k: int| 0 <= k < wi implies !tri_covered(*v0, *v1, *v2, k, py as int)
                by {
                    if tri_covered(*v0, *v1, *v2, k, py as int) {
                        lemma_covered_in_box(*v0, *v1, *v2, k, py as int);
                    }
                }
                lemma_row_empty(*v0, *v1, *v2, wi, py as int, 0);
                assert(screen_frags(*v0, *v1, *v2, wi, hi, py as int) =~= screen_frags(
                    *v0,
                    *v1,
                    *v2,
                    wi,
                    hi,
                    py as int + 1,
                ));
            }
        } else {
            let cy = pyi * FX_ONE + FX_HALF;
            proof {
                assert forall|k: int| 0 <= k < px_start as int implies !tri_covered(
                    *v0,
                    *v1,
                    *v2,
                    k,
                    py as int,
                ) by {
                    if tri_covered(*v0, *v1, *v2, k, py as int) {
                        lemma_covered_in_box(*v0, *v1, *v2, k, py as int);
                    }
                }
                lemma_row_eq(*v0, *v1, *v2, wi, py as int, 0, px_start as int);
            }
            let mut px: usize = px_start;
            while px < px_end
                invariant
                    px_start <= px <= px_end,
                    px_end <= width,
                    py < height,
                    py_start <= py < py_end,
                    1 <= width <= DIM_MAX,
                    1 <= height <= DIM_MAX,
                    vertex_raster_ok(*v0),
                    vertex_raster_ok(*v1),
                    vertex_raster_ok(*v2),
                    wi == width as int,
                    hi == height as int,
                    p0 == v0.transformed_position,
                    p1 == v1.transformed_position,
                    p2 == v2.transformed_position,
                    a2 == tri_area2_spec(p0, p1, p2),
                    a2 != 0,
                    flip == (a2 < 0),
                    *b == if flip {
                        *v2
                    } else {
                        *v1
                    },
                    *c == if flip {
                        *v1
                    } else {
                        *v2
                    },
                    pa == p0,
                    pb == b.transformed_position,
                    pc == c.transformed_position,
                    cy == ctr(py as int),
                    screen_frags(*v0, *v1, *v2, wi, hi, 0) == r@ + row_frags(
                        *v0,
                        *v1,
                        *v2,
                        wi,
                        py as int,
                        px as int,
                    ) + screen_frags(*v0, *v1, *v2, wi, hi, py as int + 1),
                decreases px_end - px,
            {
                let cx = (px as i64) * FX_ONE + FX_HALF;
                proof {
                    assert(cx == ctr(px as int));
                }
                let wa = cross_e(pc.x - pb.x, pc.y - pb.y, cx - pb.x, cy - pb.y);
                let wb = cross_e(pa.x - pc.x, pa.y - pc.y, cx - pc.x, cy - pc.y);
                let wc = cross_e(pb.x - pa.x, pb.y - pa.y, cx - pa.x, cy - pa.y);
                let cov = acc_e(wa, pc.x - pb.x, pc.y - pb.y) && acc_e(wb, pa.x - pc.x, pa.y - pc.y)
                    && acc_e(wc, pb.x - pa.x, pb.y - pa.y);
                proof {
                    if flip {
                        lemma_flip_area(p0, p1, p2);
                    }
                    assert(cov == tri_covered(*v0, *v1, *v2, px as int, py as int));
                }
                if cov {
                    proof {
                        lemma_barycentric_identity(pa, pb, pc, cx as int, cy as int);
                        if flip {
                            lemma_flip_area(p0, p1, p2);
                        }
                        assert(wa + wb + wc == tri_area2_spec(pa, pb, pc));
                        assert(wa as int + wb as int + wc as int > 0);
                    }
                    let s = wa + wb + wc;
                    let tx = interp_e(wa, wb, wc, pa.z, pb.z, pc.z, s);
                    let ux = interp_e(
                        wa,
                        wb,
                        wc,
                        v0.tex_coords.x,
                        b.tex_coords.x,
                        c.tex_coords.x,
                        s,
                    );
                    let uy = interp_e(
                        wa,
                        wb,
                        wc,
                        v0.tex_coords.y,
                        b.tex_coords.y,
                        c.tex_coords.y,
                        s,
                    );
                    let nx = interp_e(
                        wa,
                        wb,
                        wc,
                        v0.transformed_normal.x,
                        b.transformed_normal.x,
                        c.transformed_normal.x,
                        s,
                    );
                    let ny = interp_e(
                        wa,
                        wb,
                        wc,
                        v0.transformed_normal.y,
                        b.transformed_normal.y,
                        c.transformed_normal.y,
                        s,
                    );
                    let nz = interp_e(
                        wa,
                        wb,
                        wc,
                        v0.transformed_normal.z,
                        b.transformed_normal.z,
                        c.transformed_normal.z,
                        s,
                    );
                    let frag = Fragment {
                        x: px,
                        y: py,
                        vertex_position: Fx2 { x: ux, y: uy },
                        normal: Fx3 { x: nx, y: ny, z: nz },
                        intensity: fx_clamped01(nz),
                        depth: tx,
                    };
                    proof {
                        assert(frag == tri_frag(*v0, *v1, *v2, px as int, py as int));
                        assert(row_frags(*v0, *v1, *v2, wi, py as int, px as int) == seq![frag]
                            + row_frags(*v0, *v1, *v2, wi, py as int, px as int + 1));
                        assert(r@ + (seq![frag] + row_frags(
                            *v0,
                            *v1,
                            *v2,
                            wi,
                            py as int,
                            px as int + 1,
                        )) =~= (r@ + seq![frag]) + row_frags(
                            *v0,
                            *v1,
                            *v2,
                            wi,
                            py as int,
                            px as int + 1,
                        ));
                    }
                    r.push(frag);
                } else {
                    proof {
                        lemma_row_skip(*v0, *v1, *v2, wi, py as int, px as int);
                    }
                }
                px = px + 1;
            }
            proof {
                assert forall|k: int| px as int <= k < wi implies !tri_covered(
                    *v0,
                    *v1,
                    *v2,
                    k,
                    py as int,
                ) by {
                    if tri_covered(*v0, *v1, *v2, k, py as int) {
                        lemma_covered_in_box(*v0, *v1, *v2, k, py as int);
                    }
                }
                lemma_row_empty(*v0, *v1, *v2, wi, py as int, px as int);
                assert(r@ + row_frags(*v0, *v1, *v2, wi, py as int, px as int) =~= r@);
            }
        }
        py = py + 1;
        proof {
            assert(r@ + screen_frags(*v0, *v1, *v2, wi, hi, py as int) =~= screen_frags(
                *v0,
                *v1,
                *v2,
                wi,
                hi,
                0,
            ));
        }
    }
    proof {
        assert(screen_frags(*v0, *v1, *v2, wi, hi, hi) == Seq::<Fragment>::empty());
        assert(r@ =~= screen_frags(*v0, *v1, *v2, wi, hi, 0));
    }
    r
}

} // verus!
