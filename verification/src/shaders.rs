//! The shading stage: one pure function per material, from a
//! fragment and the draw call's uniforms to a color. Patterns are
//! built from the fixed-point triangle waves, thresholds and the
//! color blend operators; animated materials fold the frame counter
//! into the wave arguments. Radial patterns compare squared
//! distances, so no square root is needed. Every material scales its
//! final color by the fragment's lighting term, except the sun,
//! which is emissive and shines at full strength.

use vstd::prelude::*;
use vstd::arithmetic::div_mod::{
    lemma_div_is_ordered,
    lemma_div_multiples_vanish,
    lemma_div_pos_is_pos,
};
use vstd::arithmetic::mul::lemma_mul_inequality;
use vstd::string::StringSliceAdditionalSpecFns;
use vstd::utf8::encode_utf8_decode_utf8;
use crate::color::{
    color_blend_add,
    color_blend_multiply,
    color_blend_normal,
    color_blend_subtract,
    color_lerp,
    color_scale,
    Color,
};
use crate::fixed::{
    emod,
    fx_clamp01,
    fx_clamped01,
    fx_mul,
    fx_mul_spec,
    fx_ok,
    iabs,
    pcos,
    pcos_spec,
    psin,
    psin_spec,
    FX_HALF,
    FX_ONE,
};
use crate::raster::fragment_ok;
use crate::vertex::{Fragment, Uniforms};

verus! {

/// A pattern value in `[0, FX_ONE]` as a color channel in `[0, 255]`.
pub open spec fn unit_channel(p: int) -> u8 {
    ((p * 255) / (FX_ONE as int)) as u8
}

fn unit_channel_e(p: i64) -> (r: u8)
    requires
        0 <= p <= FX_ONE,
    ensures
        r == unit_channel(p as int),
{
    proof {
        lemma_div_pos_is_pos(p * 255, FX_ONE as int);
        lemma_mul_inequality(p as int, FX_ONE as int, 255);
        vstd::arithmetic::mul::lemma_mul_is_commutative(p as int, 255);
        vstd::arithmetic::mul::lemma_mul_is_commutative(FX_ONE as int, 255);
        lemma_div_is_ordered(p as int * 255, FX_ONE as int * 255, FX_ONE as int);
        lemma_div_multiples_vanish(255, FX_ONE as int);
    }
    (((p as u64) * 255) / (FX_ONE as u64)) as u8
}

/// The absolute value, saturated at one unit; the common shape of
/// the procedural noise terms.
pub open spec fn unit_abs(x: int) -> int {
    if iabs(x) > FX_ONE {
        FX_ONE as int
    } else {
        iabs(x)
    }
}

fn unit_abs_e(x: i64) -> (r: i64)
    requires
        x > i64::MIN,
    ensures
        r == unit_abs(x as int),
        0 <= r <= FX_ONE,
{
    let a = if x < 0 {
        -x
    } else {
        x
    };
    if a > FX_ONE {
        FX_ONE
    } else {
        a
    }
}

/// Exact comparison of two strings, byte by byte.
fn str_eq(a: &str, b: &str) -> (r: bool)
    ensures
        r == (a@ == b@),
{
    let ab = a.as_bytes();
    let bb = b.as_bytes();
    proof {
        encode_utf8_decode_utf8(a@);
        encode_utf8_decode_utf8(b@);
    }
    if ab.len() != bb.len() {
        return false;
    }
    let n = ab.len();
    let mut i: usize = 0;
    while i < n
        invariant
            i <= n,
            n == ab.len(),
            ab@ == a.spec_bytes(),
            bb@ == b.spec_bytes(),
            ab@.len() == bb@.len(),
            forall|k: int| 0 <= k < i ==> ab@[k] == bb@[k],
        decreases n - i,
    {
        if ab[i] != bb[i] {
            proof {
                assert(a.spec_bytes() != b.spec_bytes());
                encode_utf8_decode_utf8(a@);
                encode_utf8_decode_utf8(b@);
            }
            return false;
        }
        i = i + 1;
    }
    proof {
        assert(ab@ =~= bb@);
        encode_utf8_decode_utf8(a@);
        encode_utf8_decode_utf8(b@);
    }
    true
}

/// A crossed wave pattern over the local coordinate, scaled tenfold:
/// bright where both waves peak together.
pub open spec fn static_pattern_spec(f: Fragment) -> Color {
    let sx = psin_spec(fx_mul_spec(f.vertex_position.x as int, 10 * FX_ONE));
    let sy = psin_spec(fx_mul_spec(f.vertex_position.y as int, 10 * FX_ONE));
    let pat = unit_abs(fx_mul_spec(sx, sy));
    Color { r: unit_channel(pat), g: unit_channel(FX_ONE - pat), b: 128u8 }
}

pub fn static_pattern_shader(fragment: &Fragment) -> (c: Color)
    requires
        fragment_ok(*fragment),
    ensures
        c == static_pattern_spec(*fragment),
{
    let sx = psin(fx_mul(fragment.vertex_position.x, 10 * FX_ONE));
    let sy = psin(fx_mul(fragment.vertex_position.y, 10 * FX_ONE));
    let pat = unit_abs_e(fx_mul(sx, sy));
    Color { r: unit_channel_e(pat), g: unit_channel_e(FX_ONE - pat), b: 128 }
}

pub open spec fn purple_spec() -> Color {
    Color { r: 128u8, g: 0u8, b: 128u8 }
}

pub fn purple_shader(_fragment: &Fragment) -> (c: Color)
    ensures
        c == purple_spec(),
{
    Color { r: 128, g: 0, b: 128 }
}

/// The squared distance of the local coordinate from the origin, in
/// fixed-point units.
pub open spec fn dist2_spec(x: int, y: int) -> int {
    fx_mul_spec(x, x) + fx_mul_spec(y, y)
}

/// A yellow disc of radius one quarter around the local origin,
/// black outside: the squared distance is compared against the
/// squared radius.
pub open spec fn circle_spec(f: Fragment) -> Color {
    if dist2_spec(f.vertex_position.x as int, f.vertex_position.y as int) < 4096 {
        Color { r: 255u8, g: 255u8, b: 0u8 }
    } else {
        Color { r: 0u8, g: 0u8, b: 0u8 }
    }
}

pub fn circle_shader(fragment: &Fragment) -> (c: Color)
    requires
        fragment_ok(*fragment),
    ensures
        c == circle_spec(*fragment),
{
    let d2 = fx_mul(fragment.vertex_position.x, fragment.vertex_position.x) + fx_mul(
        fragment.vertex_position.y,
        fragment.vertex_position.y,
    );
    if d2 < 4096 {
        Color { r: 255, g: 255, b: 0 }
    } else {
        Color { r: 0, g: 0, b: 0 }
    }
}

/// Two white discs orbiting the local field with time, white where
/// either disc covers the point.
pub open spec fn moving_circles_spec(f: Fragment, u: Uniforms) -> Color {
    let t = u.time * 3277;
    let c1x = (fx_mul_spec(psin_spec(t), 26214) + FX_HALF) % (FX_ONE as int);
    let c2x = (fx_mul_spec(pcos_spec(t), 26214) + FX_HALF) % (FX_ONE as int);
    let d1 = dist2_spec(f.vertex_position.x - c1x, f.vertex_position.y - 19661);
    let d2 = dist2_spec(f.vertex_position.x - c2x, f.vertex_position.y - 45875);
    if d1 < 655 || d2 < 655 {
        Color { r: 255u8, g: 255u8, b: 255u8 }
    } else {
        Color { r: 0u8, g: 0u8, b: 0u8 }
    }
}

pub fn moving_circles_shader(fragment: &Fragment, uniforms: &Uniforms) -> (c: Color)
    requires
        fragment_ok(*fragment),
    ensures
        c == moving_circles_spec(*fragment, *uniforms),
{
    let t = (uniforms.time as i64) * 3277;
    let c1x = emod(fx_mul(psin(t), 26214) + FX_HALF, FX_ONE);
    let c2x = emod(fx_mul(pcos(t), 26214) + FX_HALF, FX_ONE);
    let d1 = fx_mul(fragment.vertex_position.x - c1x, fragment.vertex_position.x - c1x) + fx_mul(
        fragment.vertex_position.y - 19661,
        fragment.vertex_position.y - 19661,
    );
    let d2 = fx_mul(fragment.vertex_position.x - c2x, fragment.vertex_position.x - c2x) + fx_mul(
        fragment.vertex_position.y - 45875,
        fragment.vertex_position.y - 45875,
    );
    if d1 < 655 || d2 < 655 {
        Color { r: 255, g: 255, b: 255 }
    } else {
        Color { r: 0, g: 0, b: 0 }
    }
}

/// The crossed-wave base with the orbiting discs layered over it,
/// both dimmed by the fragment's lighting term.
pub open spec fn combined_spec(f: Fragment, u: Uniforms) -> Color {
    let base = static_pattern_spec(f);
    let circle = moving_circles_spec(f, u);
    if circle != (Color { r: 0u8, g: 0u8, b: 0u8 }) {
        color_scale(circle, f.intensity as int)
    } else {
        color_scale(base, f.intensity as int)
    }
}

pub fn combined_shader(fragment: &Fragment, uniforms: &Uniforms) -> (c: Color)
    requires
        fragment_ok(*fragment),
    ensures
        c == combined_spec(*fragment, *uniforms),
{
    let base = static_pattern_shader(fragment);
    let circle = moving_circles_shader(fragment, uniforms);
    if !circle.is_black() {
        circle.scale(fragment.intensity)
    } else {
        base.scale(fragment.intensity)
    }
}

/// The default material: the combined animated pattern.
pub fn fragment_shader(fragment: &Fragment, uniforms: &Uniforms) -> (c: Color)
    requires
        fragment_ok(*fragment),
    ensures
        c == combined_spec(*fragment, *uniforms),
{
    combined_shader(fragment, uniforms)
}

/// The purple base with the yellow disc layered on by the chosen
/// blend operator, dimmed by the lighting term. An unknown mode
/// falls back to the base color.
pub open spec fn combined_blend_spec(f: Fragment, mode: Seq<char>) -> Color {
    let base = purple_spec();
    let circle = circle_spec(f);
    let combined = if mode == "normal"@ {
        color_blend_normal(base, circle)
    } else if mode == "multiply"@ {
        color_blend_multiply(base, circle)
    } else if mode == "add"@ {
        color_blend_add(base, circle)
    } else if mode == "subtract"@ {
        color_blend_subtract(base, circle)
    } else {
        base
    };
    color_scale(combined, f.intensity as int)
}

pub fn combined_blend_shader(fragment: &Fragment, blend_mode: &str) -> (c: Color)
    requires
        fragment_ok(*fragment),
    ensures
        c == combined_blend_spec(*fragment, blend_mode@),
{
    let base = purple_shader(fragment);
    let circle = circle_shader(fragment);
    let combined = if str_eq(blend_mode, "normal") {
        base.blend_normal(&circle)
    } else if str_eq(blend_mode, "multiply") {
        base.blend_multiply(&circle)
    } else if str_eq(blend_mode, "add") {
        base.blend_add(&circle)
    } else if str_eq(blend_mode, "subtract") {
        base.blend_subtract(&circle)
    } else {
        base
    };
    combined.scale(fragment.intensity)
}

/// The emissive star: a radial gradient from yellow to orange warped
/// by a slow wave, crossed noise multiplied in, and the whole result
/// brightened half again. As the scene's light source it is not
/// dimmed by the fragment's lighting term. The gradient parameter is
/// half the squared distance from the local origin, not the distance
/// itself, so the falloff steepens with radius; no square root is
/// computed.
pub open spec fn sun_spec(f: Fragment, u: Uniforms) -> Color {
    let t = u.time * 1311;
    let x = f.vertex_position.x as int;
    let y = f.vertex_position.y as int;
    let wx = fx_mul_spec(psin_spec(x + t), 6554);
    let wy = fx_mul_spec(pcos_spec(y + t), 6554);
    let d = fx_clamp01(fx_mul_spec(dist2_spec(x + wx, y + wy), FX_HALF as int));
    let gradient = color_lerp(
        Color { r: 255u8, g: 204u8, b: 0u8 },
        Color { r: 255u8, g: 140u8, b: 0u8 },
        d,
    );
    let noise = unit_abs(
        fx_mul_spec(psin_spec(fx_mul_spec(x, 10 * FX_ONE) + t), pcos_spec(fx_mul_spec(y, 10
        * FX_ONE) + t)),
    );
    color_scale(color_scale(gradient, noise), 98304)
}

pub fn sun_shader(fragment: &Fragment, uniforms: &Uniforms) -> (c: Color)
    requires
        fragment_ok(*fragment),
    ensures
        c == sun_spec(*fragment, *uniforms),
{
    let t = (uniforms.time as i64) * 1311;
    let x = fragment.vertex_position.x;
    let y = fragment.vertex_position.y;
    let wx = fx_mul(psin(x + t), 6554);
    let wy = fx_mul(pcos(y + t), 6554);
    let d = fx_clamped01(fx_mul(fx_mul(x + wx, x + wx) + fx_mul(y + wy, y + wy), FX_HALF));
    let gradient = Color::new(255, 204, 0).lerp(&Color::new(255, 140, 0), d);
    let noise = unit_abs_e(fx_mul(psin(fx_mul(x, 10 * FX_ONE) + t), pcos(fx_mul(y, 10 * FX_ONE)
        + t)));
    gradient.scale(noise).scale(98304)
}

/// The cratered gray body: dark brown patterning under amplified
/// noise, multiplied against a dark gray base, dimmed by the
/// fragment's lighting term.
pub open spec fn rocky_planet_spec(f: Fragment) -> Color {
    let x = f.vertex_position.x as int;
    let y = f.vertex_position.y as int;
    let pat = unit_abs(
        fx_mul_spec(
            psin_spec(fx_mul_spec(x, 10 * FX_ONE)),
            pcos_spec(fx_mul_spec(y, 10 * FX_ONE)),
        ),
    );
    let base = color_scale(Color { r: 80u8, g: 65u8, b: 55u8 }, pat);
    let noise = iabs(
        fx_mul_spec(
            5 * FX_ONE,
            fx_mul_spec(
                psin_spec(fx_mul_spec(x, 5 * FX_ONE)),
                pcos_spec(fx_mul_spec(y, 5 * FX_ONE)),
            ),
        ),
    );
    let speckled = color_scale(base, noise);
    color_scale(color_blend_multiply(Color { r: 105u8, g: 105u8, b: 105u8 }, speckled),
        f.intensity as int)
}

pub fn rocky_planet_shader(fragment: &Fragment, _uniforms: &Uniforms) -> (c: Color)
    requires
        fragment_ok(*fragment),
    ensures
        c == rocky_planet_spec(*fragment),
{
    let x = fragment.vertex_position.x;
    let y = fragment.vertex_position.y;
    let pat = unit_abs_e(fx_mul(psin(fx_mul(x, 10 * FX_ONE)), pcos(fx_mul(y, 10 * FX_ONE))));
    let base = Color::new(80, 65, 55).scale(pat);
    let inner = fx_mul(5 * FX_ONE, fx_mul(psin(fx_mul(x, 5 * FX_ONE)), pcos(fx_mul(y, 5
        * FX_ONE))));
    let noise = if inner < 0 {
        -inner
    } else {
        inner
    };
    let speckled = base.scale(noise);
    Color::new(105, 105, 105).blend_multiply(&speckled).scale(fragment.intensity)
}

/// The cloud-shrouded body: soft yellow, light gray and white mixed
/// by two slowly drifting wave patterns, dimmed by the fragment's
/// lighting term.
pub open spec fn venus_spec(f: Fragment, u: Uniforms) -> Color {
    let t = u.time * 655;
    let x = f.vertex_position.x as int;
    let y = f.vertex_position.y as int;
    let wave_x = fx_clamp01(fx_mul_spec(psin_spec(fx_mul_spec(x, 3 * FX_ONE) + t), FX_HALF as int)
        + FX_HALF);
    let wave_y = fx_clamp01(fx_mul_spec(pcos_spec(fx_mul_spec(y, 3 * FX_ONE) + t), FX_HALF as int)
        + FX_HALF);
    let base = color_lerp(
        Color { r: 255u8, g: 228u8, b: 181u8 },
        Color { r: 220u8, g: 220u8, b: 220u8 },
        wave_x,
    );
    color_scale(color_lerp(base, Color { r: 255u8, g: 250u8, b: 240u8 }, wave_y),
        f.intensity as int)
}

pub fn venus_shader(fragment: &Fragment, uniforms: &Uniforms) -> (c: Color)
    requires
        fragment_ok(*fragment),
    ensures
        c == venus_spec(*fragment, *uniforms),
{
    let t = (uniforms.time as i64) * 655;
    let x = fragment.vertex_position.x;
    let y = fragment.vertex_position.y;
    let wave_x = fx_clamped01(fx_mul(psin(fx_mul(x, 3 * FX_ONE) + t), FX_HALF) + FX_HALF);
    let wave_y = fx_clamped01(fx_mul(pcos(fx_mul(y, 3 * FX_ONE) + t), FX_HALF) + FX_HALF);
    let base = Color::new(255, 228, 181).lerp(&Color::new(220, 220, 220), wave_x);
    base.lerp(&Color::new(255, 250, 240), wave_y).scale(fragment.intensity)
}

/// The living planet: water, land and mountains from a drifting
/// continent pattern, with fast white clouds over everything, the
/// whole dimmed by the fragment's lighting term.
pub open spec fn earth_spec(f: Fragment, u: Uniforms) -> Color {
    let x = f.vertex_position.x as int;
    let y = f.vertex_position.y as int;
    let mx = x + u.time * 328;
    let continent = unit_abs(
        fx_mul_spec(
            psin_spec(fx_mul_spec(mx, 229376) + fx_mul_spec(y, 137626)),
            pcos_spec(fx_mul_spec(mx, 183501) - fx_mul_spec(y, 216269)),
        ),
    );
    let base = if continent > 39322 {
        Color { r: 139u8, g: 69u8, b: 19u8 }
    } else if continent > 26214 {
        Color { r: 34u8, g: 139u8, b: 34u8 }
    } else {
        Color { r: 0u8, g: 105u8, b: 148u8 }
    };
    let ct = u.time * 1311;
    let cx = x + fx_mul_spec(psin_spec(ct), 19661);
    let cy = y + fx_mul_spec(pcos_spec(ct), 19661);
    let clouds = unit_abs(
        fx_mul_spec(
            psin_spec(fx_mul_spec(cx, 20 * FX_ONE)),
            pcos_spec(fx_mul_spec(cy, 20 * FX_ONE)),
        ),
    );
    let lit = if clouds > 39322 {
        Color { r: 255u8, g: 255u8, b: 255u8 }
    } else {
        base
    };
    color_scale(lit, f.intensity as int)
}

pub fn earth_shader(fragment: &Fragment, uniforms: &Uniforms) -> (c: Color)
    requires
        fragment_ok(*fragment),
    ensures
        c == earth_spec(*fragment, *uniforms),
{
    let x = fragment.vertex_position.x;
    let y = fragment.vertex_position.y;
    let mx = x + (uniforms.time as i64) * 328;
    let continent = unit_abs_e(
        fx_mul(
            psin(fx_mul(mx, 229376) + fx_mul(y, 137626)),
            pcos(fx_mul(mx, 183501) - fx_mul(y, 216269)),
        ),
    );
    let base = if continent > 39322 {
        Color::new(139, 69, 19)
    } else if continent > 26214 {
        Color::new(34, 139, 34)
    } else {
        Color::new(0, 105, 148)
    };
    let ct = (uniforms.time as i64) * 1311;
    let cx = x + fx_mul(psin(ct), 19661);
    let cy = y + fx_mul(pcos(ct), 19661);
    let clouds = unit_abs_e(fx_mul(psin(fx_mul(cx, 20 * FX_ONE)), pcos(fx_mul(cy, 20 * FX_ONE))));
    let lit = if clouds > 39322 {
        Color::new(255, 255, 255)
    } else {
        base
    };
    lit.scale(fragment.intensity)
}

/// The red desert body: craters over rolling surface noise choose
/// among three reds, dimmed by the fragment's lighting term.
pub open spec fn mars_spec(f: Fragment) -> Color {
    let x = f.vertex_position.x as int;
    let y = f.vertex_position.y as int;
    let surface = unit_abs(
        fx_mul_spec(psin_spec(fx_mul_spec(x, 8 * FX_ONE)), pcos_spec(fx_mul_spec(y, 8 * FX_ONE))),
    );
    let craters = unit_abs(
        fx_mul_spec(
            psin_spec(fx_mul_spec(x, 15 * FX_ONE)),
            pcos_spec(fx_mul_spec(y, 15 * FX_ONE)),
        ),
    );
    let lit = if craters > 39322 {
        Color { r: 139u8, g: 69u8, b: 19u8 }
    } else if surface > 26214 {
        Color { r: 165u8, g: 42u8, b: 42u8 }
    } else {
        Color { r: 205u8, g: 92u8, b: 92u8 }
    };
    color_scale(lit, f.intensity as int)
}

pub fn mars_shader(fragment: &Fragment, _uniforms: &Uniforms) -> (c: Color)
    requires
        fragment_ok(*fragment),
    ensures
        c == mars_spec(*fragment),
{
    let x = fragment.vertex_position.x;
    let y = fragment.vertex_position.y;
    let surface = unit_abs_e(fx_mul(psin(fx_mul(x, 8 * FX_ONE)), pcos(fx_mul(y, 8 * FX_ONE))));
    let craters = unit_abs_e(fx_mul(psin(fx_mul(x, 15 * FX_ONE)), pcos(fx_mul(y, 15 * FX_ONE))));
    let lit = if craters > 39322 {
        Color::new(139, 69, 19)
    } else if surface > 26214 {
        Color::new(165, 42, 42)
    } else {
        Color::new(205, 92, 92)
    };
    lit.scale(fragment.intensity)
}

/// The banded giant: scrolling horizontal bands in three hues, with
/// the great red spot blended in where its oval lies, dimmed by the
/// fragment's lighting term.
pub open spec fn jupiter_spec(f: Fragment, u: Uniforms) -> Color {
    let x = f.vertex_position.x as int;
    let y = f.vertex_position.y as int;
    let t = u.time * 1311;
    let band = fx_clamp01(fx_mul_spec(psin_spec(fx_mul_spec(y, 10 * FX_ONE) + t), FX_HALF as int)
        + FX_HALF);
    let base = if band < 19661 {
        Color { r: 210u8, g: 180u8, b: 140u8 }
    } else if band < 39322 {
        Color { r: 245u8, g: 245u8, b: 245u8 }
    } else {
        Color { r: 139u8, g: 69u8, b: 19u8 }
    };
    let rx = fx_mul_spec(fx_mul_spec(x - 19661, x - 19661), 10 * FX_ONE);
    let ry = fx_mul_spec(fx_mul_spec(y + 13107, y + 13107), 5 * FX_ONE);
    let spot = FX_ONE - fx_clamp01(rx + ry);
    let lit = if spot > 45875 {
        color_lerp(Color { r: 255u8, g: 69u8, b: 0u8 }, base, spot)
    } else {
        base
    };
    color_scale(lit, f.intensity as int)
}

pub fn jupiter_shader(fragment: &Fragment, uniforms: &Uniforms) -> (c: Color)
    requires
        fragment_ok(*fragment),
    ensures
        c == jupiter_spec(*fragment, *uniforms),
{
    let x = fragment.vertex_position.x;
    let y = fragment.vertex_position.y;
    let t = (uniforms.time as i64) * 1311;
    let band = fx_clamped01(fx_mul(psin(fx_mul(y, 10 * FX_ONE) + t), FX_HALF) + FX_HALF);
    let base = if band < 19661 {
        Color::new(210, 180, 140)
    } else if band < 39322 {
        Color::new(245, 245, 245)
    } else {
        Color::new(139, 69, 19)
    };
    let rx = fx_mul(fx_mul(x - 19661, x - 19661), 10 * FX_ONE);
    let ry = fx_mul(fx_mul(y + 13107, y + 13107), 5 * FX_ONE);
    let spot = FX_ONE - fx_clamped01(rx + ry);
    let lit = if spot > 45875 {
        Color::new(255, 69, 0).lerp(&base, spot)
    } else {
        base
    };
    lit.scale(fragment.intensity)
}

/// The airless companion: surface noise picking light or dark gray,
/// dimmed by the fragment's lighting term.
pub open spec fn moon_spec(f: Fragment) -> Color {
    let x = f.vertex_position.x as int;
    let y = f.vertex_position.y as int;
    let surface = unit_abs(
        fx_mul_spec(psin_spec(fx_mul_spec(x, 5 * FX_ONE)), pcos_spec(fx_mul_spec(y, 5 * FX_ONE))),
    );
    let lit = if surface > FX_HALF {
        Color { r: 105u8, g: 105u8, b: 105u8 }
    } else {
        Color { r: 200u8, g: 200u8, b: 200u8 }
    };
    color_scale(lit, f.intensity as int)
}

pub fn moon_shader(fragment: &Fragment, _uniforms: &Uniforms) -> (c: Color)
    requires
        fragment_ok(*fragment),
    ensures
        c == moon_spec(*fragment),
{
    let x = fragment.vertex_position.x;
    let y = fragment.vertex_position.y;
    let surface = unit_abs_e(fx_mul(psin(fx_mul(x, 5 * FX_ONE)), pcos(fx_mul(y, 5 * FX_ONE))));
    let lit = if surface > FX_HALF {
        Color::new(105, 105, 105)
    } else {
        Color::new(200, 200, 200)
    };
    lit.scale(fragment.intensity)
}

/// The ringed giant's globe: slow pale bands in three hues, dimmed
/// by the fragment's lighting term.
pub open spec fn saturn_spec(f: Fragment, u: Uniforms) -> Color {
    let y = f.vertex_position.y as int;
    let t = u.time * 655;
    let band = fx_clamp01(fx_mul_spec(psin_spec(fx_mul_spec(y, 5 * FX_ONE) + t), FX_HALF as int)
        + FX_HALF);
    let lit = if band < 19661 {
        Color { r: 253u8, g: 253u8, b: 150u8 }
    } else if band < 39322 {
        Color { r: 245u8, g: 222u8, b: 179u8 }
    } else {
        Color { r: 205u8, g: 133u8, b: 63u8 }
    };
    color_scale(lit, f.intensity as int)
}

pub fn saturn_shader(fragment: &Fragment, uniforms: &Uniforms) -> (c: Color)
    requires
        fragment_ok(*fragment),
    ensures
        c == saturn_spec(*fragment, *uniforms),
{
    let y = fragment.vertex_position.y;
    let t = (uniforms.time as i64) * 655;
    let band = fx_clamped01(fx_mul(psin(fx_mul(y, 5 * FX_ONE) + t), FX_HALF) + FX_HALF);
    let lit = if band < 19661 {
        Color::new(253, 253, 150)
    } else if band < 39322 {
        Color::new(245, 222, 179)
    } else {
        Color::new(205, 133, 63)
    };
    lit.scale(fragment.intensity)
}

/// Concentric rings by radial distance from the local origin: two
/// gray tones on four annuli, black between them, dimmed by the
/// fragment's lighting term. The squared distance is compared
/// against the squared ring radii.
pub open spec fn saturn_rings_spec(f: Fragment) -> Color {
    let d2 = dist2_spec(f.vertex_position.x as int, f.vertex_position.y as int);
    let lit = if 79299 < d2 && d2 < 94372 {
        Color { r: 200u8, g: 200u8, b: 200u8 }
    } else if 110756 < d2 && d2 < 128451 {
        Color { r: 169u8, g: 169u8, b: 169u8 }
    } else if 147456 < d2 && d2 < 167772 {
        Color { r: 200u8, g: 200u8, b: 200u8 }
    } else if 189399 < d2 && d2 < 212337 {
        Color { r: 169u8, g: 169u8, b: 169u8 }
    } else {
        Color { r: 0u8, g: 0u8, b: 0u8 }
    };
    color_scale(lit, f.intensity as int)
}

pub fn saturn_rings_shader(fragment: &Fragment, _uniforms: &Uniforms) -> (c: Color)
    requires
        fragment_ok(*fragment),
    ensures
        c == saturn_rings_spec(*fragment),
{
    let d2 = fx_mul(fragment.vertex_position.x, fragment.vertex_position.x) + fx_mul(
        fragment.vertex_position.y,
        fragment.vertex_position.y,
    );
    let lit = if 79299 < d2 && d2 < 94372 {
        Color::new(200, 200, 200)
    } else if 110756 < d2 && d2 < 128451 {
        Color::new(169, 169, 169)
    } else if 147456 < d2 && d2 < 167772 {
        Color::new(200, 200, 200)
    } else if 189399 < d2 && d2 < 212337 {
        Color::new(169, 169, 169)
    } else {
        Color::new(0, 0, 0)
    };
    lit.scale(fragment.intensity)
}

} // verus!
