//! Scanline rasterizer for polygons, wireframes and points.
//!
//! 1. A polygon is drawn as a fan of triangles around its first vertex.
//! 2. The vertices of a triangle are sorted by row and the triangle is split at
//!    the middle vertex.
//! 3. For each row, two edges are walked to find the ends of the span and the
//!    attribute values there.
//! 4. For each pixel of the span, the attributes are interpolated and the
//!    fragment is tested and written.
//!
//! Attributes carried through the interpolation: depth and clip W, 1/W, and
//! color and texture coordinates divided by W, from which the
//! perspective-correct values are recovered at each pixel.

use vstd::prelude::*;
use crate::bgr555;
use crate::fixed;
use crate::vram::{BankState, VramRouter};
use super::super::viewport::{ScreenPolygon, ScreenPolygonState, ScreenVertex};
use super::texture;
use super::texture::{Texel, TexParams};
use super::{RasterState, Rasterizer, DEPTH_MAX, FB_PIXELS};

verus! {

/// Which path a fragment comes from.
#[derive(Debug, Clone, Copy, PartialEq, Eq, Structural)]
pub enum Source {
    /// The inside of a polygon: the only source that obeys the shadow stencil.
    Fill,
    /// A wireframe or a polygon that is a line.
    Line,
    /// A polygon of zero size.
    Point,
}

/// One pixel's worth of a polygon, before the per-pixel tests.
#[derive(Debug, Clone, Copy)]
pub struct Fragment {
    pub color: u16,
    /// Final alpha, `0..=31`.
    pub alpha: u8,
    /// Depth in buffer units.
    pub depth: i32,
    /// `POLYGON_ATTR` of the polygon.
    pub attr: u32,
    pub poly_id: u8,
    pub source: Source,
}

/// Blend of two channels, `alpha` being the share of `top`.
pub open spec fn blended_channel(top: int, bottom: int, alpha: int) -> int {
    fixed::min((top * (alpha + 1) + bottom * (31 - alpha)) / 32, 31)
}

/// Blend of two colors, channel by channel.
pub open spec fn blended(top: u16, bottom: u16, alpha: int) -> u16 {
    bgr555::pack(
        blended_channel(bgr555::red(top), bgr555::red(bottom), alpha),
        blended_channel(bgr555::green(top), bgr555::green(bottom), alpha),
        blended_channel(bgr555::blue(top), bgr555::blue(bottom), alpha),
    )
}

/// The depth test: equal within a margin where attribute bit 14 is set, closer
/// otherwise.
pub open spec fn depth_passes(attr: u32, incoming: int, current: int) -> bool {
    if fixed::bit(attr as int, 0x4000) {
        fixed::abs(incoming - current) <= 0x200
    } else {
        incoming < current
    }
}

/// Whether the polygon mode is shadow.
pub open spec fn shadow(attr: u32) -> bool {
    attr as int / 16 % 4 == 3
}

/// Whether a translucent fragment leaves the pixel's edge mark in place: the
/// pixel is marked and lies at the rim of the screen or beside another polygon.
pub open spec fn edge_kept(r: RasterState, x: int, y: int, alpha: u8) -> bool {
    let at = y * 256 + x;
    let id = r.id_buffer[at];
    &&& alpha < 31
    &&& r.edge_enable_buffer[at] != 0
    &&& (x == 0 || y == 0 || x == 255 || y == 191 || r.id_buffer[at - 1] != id || r.id_buffer[at
        + 1] != id || r.id_buffer[at - 256] != id || r.id_buffer[at + 256] != id)
}

/// The state after writing a fragment that passed every test.
pub open spec fn stored(r: RasterState, x: int, y: int, f: Fragment) -> RasterState {
    let at = y * 256 + x;
    let color = bgr555::mark(f.color);
    let previous = r.framebuffer[at];
    let solid = f.alpha >= 31;
    let pixel = if !solid && r.control(8) && bgr555::written(previous) {
        bgr555::mark(blended(color, previous, f.alpha as int))
    } else {
        color
    };
    let fogged = fixed::bit(f.attr as int, 0x8000);
    let fog: u8 = if !fogged {
        0
    } else if solid {
        1
    } else {
        r.fog_enable_buffer[at] % 2
    };
    RasterState {
        framebuffer: r.framebuffer.update(at, pixel),
        alpha_buffer: r.alpha_buffer.update(at, f.alpha),
        depth_buffer: if solid || fixed::bit(f.attr as int, 0x800) {
            r.depth_buffer.update(at, f.depth)
        } else {
            r.depth_buffer
        },
        id_buffer: r.id_buffer.update(at, f.poly_id),
        translucent_id_buffer: if solid {
            r.translucent_id_buffer
        } else {
            r.translucent_id_buffer.update(at, f.poly_id)
        },
        edge_enable_buffer: if f.alpha == 31 {
            r.edge_enable_buffer.update(at, 1)
        } else if edge_kept(r, x, y, f.alpha) {
            r.edge_enable_buffer
        } else {
            r.edge_enable_buffer.update(at, 0)
        },
        fog_enable_buffer: r.fog_enable_buffer.update(at, fog),
        zero_dot_buffer: r.zero_dot_buffer.update(
            at,
            if f.source == Source::Point { 1 } else { 0 },
        ),
        ..r
    }
}

/// The state after a fragment arrives at pixel `(x, y)`: it is dropped where it
/// is transparent, fails the alpha or the depth test, repeats a translucent
/// polygon ID, or is caught by the shadow stencil.
pub open spec fn plotted(r: RasterState, x: int, y: int, f: Fragment) -> RasterState {
    let at = y * 256 + x;
    if f.alpha == 0 || (r.control(4) && f.alpha <= r.alpha_test_ref) {
        r
    } else if !depth_passes(f.attr, f.depth as int, r.depth_buffer[at] as int) {
        r
    } else if shadow(f.attr) {
        if f.source != Source::Fill {
            stored(r, x, y, f)
        } else if f.poly_id == 0 {
            RasterState { shadow_stencil: r.shadow_stencil.update(at, 1), ..r }
        } else if r.shadow_stencil[at] != 0 {
            RasterState { shadow_stencil: r.shadow_stencil.update(at, 0), ..r }
        } else if r.id_buffer[at] == f.poly_id {
            r
        } else {
            stored(r, x, y, f)
        }
    } else if f.alpha < 31 && bgr555::written(r.framebuffer[at]) && r.translucent_id_buffer[at]
        == f.poly_id {
        r
    } else {
        stored(r, x, y, f)
    }
}

/// Whether two states agree on everything about a pixel that drawing can change.
pub open spec fn same_pixel(a: RasterState, b: RasterState, i: int) -> bool {
    &&& a.framebuffer[i] == b.framebuffer[i]
    &&& a.alpha_buffer[i] == b.alpha_buffer[i]
    &&& a.depth_buffer[i] == b.depth_buffer[i]
    &&& a.id_buffer[i] == b.id_buffer[i]
    &&& a.translucent_id_buffer[i] == b.translucent_id_buffer[i]
    &&& a.edge_enable_buffer[i] == b.edge_enable_buffer[i]
    &&& a.fog_enable_buffer[i] == b.fog_enable_buffer[i]
    &&& a.zero_dot_buffer[i] == b.zero_dot_buffer[i]
    &&& a.shadow_stencil[i] == b.shadow_stencil[i]
}

/// Plotting keeps the buffers' shape, and changes no register and no pixel but
/// its own.
pub proof fn law_fragment_touches_one_pixel(r: RasterState, x: int, y: int, f: Fragment)
    requires
        r.wf(),
        0 <= x < 256,
        0 <= y < 192,
        f.poly_id < 64,
    ensures
        plotted(r, x, y, f).wf(),
        plotted(r, x, y, f).same_registers(r),
        forall|i: int|
            0 <= i < FB_PIXELS && i != y * 256 + x ==> same_pixel(plotted(r, x, y, f), r, i),
{
}

/// A translucent polygon never blends twice at one pixel: once a translucent
/// fragment is stored outside shadow mode, another of the same polygon ID
/// leaves the pixel as it is.
pub proof fn law_no_double_blend(r: RasterState, x: int, y: int, f: Fragment, g: Fragment)
    requires
        r.wf(),
        0 <= x < 256,
        0 <= y < 192,
        f.poly_id < 64,
        f.alpha < 31,
        g.alpha < 31,
        f.poly_id == g.poly_id,
        !shadow(g.attr),
    ensures
        plotted(stored(r, x, y, f), x, y, g) == stored(r, x, y, f),
{
}

/// A fully opaque fragment that is not a shadow and is closer than everything
/// before it replaces color, depth and polygon ID of its pixel.
pub proof fn law_closer_opaque_wins(r: RasterState, x: int, y: int, f: Fragment)
    requires
        r.wf(),
        0 <= x < 256,
        0 <= y < 192,
        f.alpha == 31,
        !shadow(f.attr),
        !fixed::bit(f.attr as int, 0x4000),
        f.depth < r.depth_buffer[y * 256 + x],
        !r.control(4) || r.alpha_test_ref < 31,
    ensures
        ({
            let after = plotted(r, x, y, f);
            let at = y * 256 + x;
            &&& after.framebuffer[at] == bgr555::mark(f.color)
            &&& after.depth_buffer[at] == f.depth
            &&& after.id_buffer[at] == f.poly_id
            &&& after.edge_enable_buffer[at] == 1
        }),
{
}

/// Alpha blend in BGR555 channel space. `alpha` in `0..=31` is how much of
/// `top` to mix in.
pub fn alpha_blend(top: u16, bot: u16, alpha: u8) -> (r: u16)
    requires
        alpha <= 31,
    ensures
        r == blended(top, bot, alpha as int),
        r < 0x8000,
{
    let (tr, tg, tb): (u32, u32, u32) = bgr555::channels(top);
    let (br, bg, bb): (u32, u32, u32) = bgr555::channels(bot);
    bgr555::make(
        blend_channel(tr, br, alpha as u32),
        blend_channel(tg, bg, alpha as u32),
        blend_channel(tb, bb, alpha as u32),
    )
}

fn blend_channel(top: u32, bottom: u32, alpha: u32) -> (r: u32)
    requires
        top <= 31,
        bottom <= 31,
        alpha <= 31,
    ensures
        r == blended_channel(top as int, bottom as int, alpha as int),
        r <= 31,
{
    proof {
        assert(0 <= top * (alpha + 1) <= 31 * 32 && 0 <= bottom * (31 - alpha) <= 31 * 31)
            by (nonlinear_arith)
            requires
                0 <= top <= 31,
                0 <= bottom <= 31,
                0 <= alpha <= 31,
        ;
    }
    let m: u32 = (top * (alpha + 1) + bottom * (31 - alpha)) / 32;
    if m < 31 {
        m
    } else {
        31
    }
}

fn depth_test_passes(attr: u32, incoming: i32, current: i32) -> (r: bool)
    ensures
        r == depth_passes(attr, incoming as int, current as int),
{
    if fixed::has_bit(attr, 0x4000) {
        let d: i64 = incoming as i64 - current as i64;
        -0x200 <= d && d <= 0x200
    } else {
        incoming < current
    }
}

fn is_shadow_mode(attr: u32) -> (r: bool)
    ensures
        r == shadow(attr),
{
    (attr / 16) % 4 == 3
}

fn should_preserve_existing_edge_mark(rast: &Rasterizer, x: usize, y: usize, alpha: u8) -> (r: bool)
    requires
        rast@.wf(),
        x < 256,
        y < 192,
    ensures
        r == edge_kept(rast@, x as int, y as int, alpha),
{
    let at: usize = y * 256 + x;
    if alpha >= 31 || rast.edge_enable_buffer[at] == 0 {
        return false;
    }
    let id: u8 = rast.id_buffer[at];
    x == 0 || y == 0 || x == 255 || y == 191 || rast.id_buffer[at - 1] != id || rast.id_buffer[at
        + 1] != id || rast.id_buffer[at - 256] != id || rast.id_buffer[at + 256] != id
}

/// Write a fragment that passed every test.
fn store_fragment(rast: &mut Rasterizer, x: usize, y: usize, f: Fragment)
    requires
        old(rast)@.wf(),
        x < 256,
        y < 192,
        f.poly_id < 64,
        f.alpha <= 31,
    ensures
        final(rast)@ == stored(old(rast)@, x as int, y as int, f),
        final(rast)@.wf(),
{
    let ghost before = rast@;
    let at: usize = y * 256 + x;
    let preserve_edge: bool = should_preserve_existing_edge_mark(rast, x, y, f.alpha);
    let color: u16 = bgr555::set_mark(f.color);
    if f.alpha < 31 {
        let prev: u16 = rast.framebuffer[at];
        if fixed::has_bit(rast.disp3dcnt as u32, 8) && prev >= 0x8000 {
            rast.framebuffer[at] = bgr555::set_mark(alpha_blend(color, prev, f.alpha));
        } else {
            rast.framebuffer[at] = color;
        }
        if fixed::has_bit(f.attr, 0x800) {
            rast.depth_buffer[at] = f.depth;
        }
        rast.translucent_id_buffer[at] = f.poly_id;
    } else {
        rast.framebuffer[at] = color;
        rast.depth_buffer[at] = f.depth;
    }
    rast.alpha_buffer[at] = f.alpha;
    rast.id_buffer[at] = f.poly_id;
    if f.alpha == 31 {
        rast.edge_enable_buffer[at] = 1;
    } else if !preserve_edge {
        rast.edge_enable_buffer[at] = 0;
    }
    let fog: u8 = if !fixed::has_bit(f.attr, 0x8000) {
        0
    } else if f.alpha < 31 {
        rast.fog_enable_buffer[at] % 2
    } else {
        1
    };
    rast.fog_enable_buffer[at] = fog;
    rast.zero_dot_buffer[at] = if f.source == Source::Point {
        1
    } else {
        0
    };
    assert(rast@ =~= stored(before, x as int, y as int, f));
}

/// Test a fragment against pixel `(x, y)` and write what passes.
fn plot(rast: &mut Rasterizer, x: usize, y: usize, f: Fragment)
    requires
        old(rast)@.wf(),
        x < 256,
        y < 192,
        f.poly_id < 64,
        f.alpha <= 31,
    ensures
        final(rast)@ == plotted(old(rast)@, x as int, y as int, f),
        final(rast)@.wf(),
{
    let ghost before = rast@;
    let at: usize = y * 256 + x;
    if f.alpha == 0 {
        return;
    }
    if fixed::has_bit(rast.disp3dcnt as u32, 4) && f.alpha <= rast.alpha_test_ref {
        return;
    }
    if !depth_test_passes(f.attr, f.depth, rast.depth_buffer[at]) {
        return;
    }
    if is_shadow_mode(f.attr) {
        if f.source == Source::Fill {
            if f.poly_id == 0 {
                // Mask pass: no color-buffer write. The visible shadow pass
                // uses a non-zero polygon ID.
                rast.shadow_stencil[at] = 1;
                assert(rast@ =~= plotted(before, x as int, y as int, f));
                return;
            }
            if rast.shadow_stencil[at] != 0 {
                rast.shadow_stencil[at] = 0;
                assert(rast@ =~= plotted(before, x as int, y as int, f));
                return;
            }
            if rast.id_buffer[at] == f.poly_id {
                return;
            }
        }
    } else if f.alpha < 31 && rast.framebuffer[at] >= 0x8000 && rast.translucent_id_buffer[at]
        == f.poly_id {
        return;
    }
    store_fragment(rast, x, y, f);
}

/// Interpolation denominator: a ratio `t` stands for `t / I_SCALE`.
pub const I_SCALE: i64 = 65536;

/// How a polygon is painted.
#[derive(Debug, Clone, Copy)]
pub struct Surface {
    pub tex: TexParams,
    pub palette_base: u16,
    /// `POLYGON_ATTR.mode`.
    pub mode: u8,
    /// Whether the right edge of each span is left out.
    pub exclude_lower_right_edges: bool,
}

/// Per-vertex attributes carried through interpolation.
#[derive(Debug, Clone, Copy)]
pub struct Vert {
    /// 24.8 fixed-point screen x.
    pub x: i32,
    /// Screen row.
    pub y: i32,
    /// 1.19.12 normalized depth.
    pub depth: i32,
    /// Clip W, for W-buffering.
    pub w: i32,
    /// 1/W scaled by 2^42.
    pub inv_w: i64,
    pub r_over_w: i64,
    pub g_over_w: i64,
    pub b_over_w: i64,
    /// Texture coordinates in pixels, over W.
    pub s_over_w: i64,
    pub t_over_w: i64,
    pub attr: u32,
    pub poly_id: u8,
    pub alpha: u8,
}

/// 1/W scaled by 2^42; a W below 1 counts as 1.
pub open spec fn reciprocal(w: i32) -> int {
    0x400_0000_0000int / fixed::max(w as int, 1)
}

/// The attributes of a screen vertex.
pub open spec fn vert_of(v: ScreenVertex, attr: u32, poly_id: u8, alpha: u8) -> Vert {
    let inv = reciprocal(v.w);
    Vert {
        x: v.screen_x,
        y: (v.screen_y as int / 256) as i32,
        depth: v.depth_z,
        w: v.w,
        inv_w: inv as i64,
        r_over_w: (bgr555::red(v.color) * inv) as i64,
        g_over_w: (bgr555::green(v.color) * inv) as i64,
        b_over_w: (bgr555::blue(v.color) * inv) as i64,
        s_over_w: (v.tex[0] * inv / 16) as i64,
        t_over_w: (v.tex[1] * inv / 16) as i64,
        attr,
        poly_id,
        alpha,
    }
}

impl Vert {
    /// The ranges that a screen vertex gives its attributes.
    pub open spec fn wf(self) -> bool {
        &&& 0 <= self.inv_w <= 0x400_0000_0000
        &&& 0 <= self.r_over_w <= 31 * 0x400_0000_0000
        &&& 0 <= self.g_over_w <= 31 * 0x400_0000_0000
        &&& 0 <= self.b_over_w <= 31 * 0x400_0000_0000
        &&& -0x20_0000_0000_0000 <= self.s_over_w <= 0x20_0000_0000_0000
        &&& -0x20_0000_0000_0000 <= self.t_over_w <= 0x20_0000_0000_0000
        &&& -0x80_0000 <= self.y < 0x80_0000
        &&& self.poly_id < 64
        &&& self.alpha <= 31
    }

    fn from(v: &ScreenVertex, attr: u32, poly_id: u8, alpha: u8) -> (r: Self)
        requires
            poly_id < 64,
            alpha <= 31,
        ensures
            r == vert_of(*v, attr, poly_id, alpha),
            r.wf(),
    {
        let w: i64 = if v.w > 1 {
            v.w as i64
        } else {
            1
        };
        proof {
            assert(0 <= 0x400_0000_0000int / w as int <= 0x400_0000_0000) by (nonlinear_arith)
                requires
                    w >= 1,
            ;
        }
        let inv_w: i64 = 0x400_0000_0000 / w;
        let (red, green, blue): (u32, u32, u32) = bgr555::channels(v.color);
        proof {
            lemma_channel_over_w(red as int, inv_w as int);
            lemma_channel_over_w(green as int, inv_w as int);
            lemma_channel_over_w(blue as int, inv_w as int);
            lemma_tex_over_w(v.tex[0] as int, inv_w as int);
            lemma_tex_over_w(v.tex[1] as int, inv_w as int);
        }
        Vert {
            x: v.screen_x,
            y: fixed::shr8(v.screen_y as i64) as i32,
            depth: v.depth_z,
            w: v.w,
            inv_w,
            r_over_w: red as i64 * inv_w,
            g_over_w: green as i64 * inv_w,
            b_over_w: blue as i64 * inv_w,
            s_over_w: fixed::shr4(v.tex[0] as i64 * inv_w),
            t_over_w: fixed::shr4(v.tex[1] as i64 * inv_w),
            attr,
            poly_id,
            alpha,
        }
    }
}

proof fn lemma_channel_over_w(c: int, inv: int)
    requires
        0 <= c <= 31,
        0 <= inv <= 0x400_0000_0000,
    ensures
        0 <= c * inv <= 31 * 0x400_0000_0000,
{
    assert(0 <= c * inv <= 31 * 0x400_0000_0000) by (nonlinear_arith)
        requires
            0 <= c <= 31,
            0 <= inv <= 0x400_0000_0000,
    ;
}

proof fn lemma_tex_over_w(s: int, inv: int)
    requires
        -0x8000 <= s <= 0x7FFF,
        0 <= inv <= 0x400_0000_0000,
    ensures
        -0x200_0000_0000_0000 <= s * inv <= 0x200_0000_0000_0000,
{
    assert(-0x200_0000_0000_0000 <= s * inv <= 0x200_0000_0000_0000) by (nonlinear_arith)
        requires
            -0x8000 <= s <= 0x7FFF,
            0 <= inv <= 0x400_0000_0000,
    ;
}

/// The value `t / I_SCALE` of the way from `a` to `b`, rounded towards `a`.
pub open spec fn lerp(a: int, b: int, t: int) -> int {
    a + fixed::tdiv((b - a) * t, 65536)
}

/// An interpolated value lies between its ends, and at them for the ratios 0
/// and 1.
pub proof fn law_lerp_between(a: int, b: int, t: int)
    requires
        0 <= t <= 65536,
    ensures
        fixed::min(a, b) <= lerp(a, b, t) <= fixed::max(a, b),
        t == 0 ==> lerp(a, b, t) == a,
        t == 65536 ==> lerp(a, b, t) == b,
{
    let d = b - a;
    if d >= 0 {
        assert(0 <= d * t <= d * 65536) by (nonlinear_arith)
            requires
                0 <= t <= 65536,
                d >= 0,
        ;
    } else {
        assert(d * 65536 <= d * t <= 0) by (nonlinear_arith)
            requires
                0 <= t <= 65536,
                d < 0,
        ;
    }
    assert(t == 0 ==> d * t == 0);
}

fn lerp_i64(a: i64, b: i64, t: i64) -> (r: i64)
    requires
        0 <= t <= 65536,
    ensures
        r == lerp(a as int, b as int, t as int),
        fixed::min(a as int, b as int) <= r <= fixed::max(a as int, b as int),
{
    let d: i128 = b as i128 - a as i128;
    proof {
        law_lerp_between(a as int, b as int, t as int);
        assert(-0x1_0000_0000_0000_0000 * 65536 <= d * t <= 0x1_0000_0000_0000_0000 * 65536)
            by (nonlinear_arith)
            requires
                0 <= t <= 65536,
                -0x1_0000_0000_0000_0000 <= d <= 0x1_0000_0000_0000_0000,
        ;
    }
    (a as i128 + fixed::div_trunc_wide(d * t as i128, I_SCALE)) as i64
}

fn lerp_i32(a: i32, b: i32, t: i64) -> (r: i32)
    requires
        0 <= t <= 65536,
    ensures
        r == lerp(a as int, b as int, t as int),
{
    lerp_i64(a as i64, b as i64, t) as i32
}

/// Every attribute interpolated; row, `POLYGON_ATTR`, ID and alpha from `a`.
pub open spec fn lerp_verts(a: Vert, b: Vert, t: int) -> Vert {
    Vert {
        x: lerp(a.x as int, b.x as int, t) as i32,
        y: a.y,
        depth: lerp(a.depth as int, b.depth as int, t) as i32,
        w: lerp(a.w as int, b.w as int, t) as i32,
        inv_w: lerp(a.inv_w as int, b.inv_w as int, t) as i64,
        r_over_w: lerp(a.r_over_w as int, b.r_over_w as int, t) as i64,
        g_over_w: lerp(a.g_over_w as int, b.g_over_w as int, t) as i64,
        b_over_w: lerp(a.b_over_w as int, b.b_over_w as int, t) as i64,
        s_over_w: lerp(a.s_over_w as int, b.s_over_w as int, t) as i64,
        t_over_w: lerp(a.t_over_w as int, b.t_over_w as int, t) as i64,
        attr: a.attr,
        poly_id: a.poly_id,
        alpha: a.alpha,
    }
}

/// Linearly interpolate every per-vertex attribute by `t` in `0..=I_SCALE`.
fn lerp_vert(a: &Vert, b: &Vert, t: i64) -> (r: Vert)
    requires
        0 <= t <= 65536,
        a.wf(),
        b.wf(),
    ensures
        r == lerp_verts(*a, *b, t as int),
        r.wf(),
{
    Vert {
        x: lerp_i32(a.x, b.x, t),
        y: a.y,
        depth: lerp_i32(a.depth, b.depth, t),
        w: lerp_i32(a.w, b.w, t),
        inv_w: lerp_i64(a.inv_w, b.inv_w, t),
        r_over_w: lerp_i64(a.r_over_w, b.r_over_w, t),
        g_over_w: lerp_i64(a.g_over_w, b.g_over_w, t),
        b_over_w: lerp_i64(a.b_over_w, b.b_over_w, t),
        s_over_w: lerp_i64(a.s_over_w, b.s_over_w, t),
        t_over_w: lerp_i64(a.t_over_w, b.t_over_w, t),
        attr: a.attr,
        poly_id: a.poly_id,
        alpha: a.alpha,
    }
}

/// The depth-buffer value of normalized depth `z` or, with W-buffering, of clip
/// W.
pub open spec fn depth_value(z: int, w: int, w_buffering: bool) -> i32 {
    if w_buffering {
        super::expanded_depth(fixed::min(fixed::max(w, 0) / 512, 0x7FFF))
    } else {
        (fixed::clamp(fixed::clamp(z, -4096, 4096) * 4 + 0x3FFF, 0, 0x7FFF) * 512) as i32
    }
}

/// Every depth written lies within the depth buffer's range.
pub proof fn law_depth_value_range(z: int, w: int, w_buffering: bool)
    ensures
        0 <= depth_value(z, w, w_buffering) <= DEPTH_MAX,
{
}

pub fn depth_to_buffer(z: i32, w: i32, w_buffering: bool) -> (r: i32)
    ensures
        r == depth_value(z as int, w as int, w_buffering),
{
    if w_buffering {
        let w_pos: i64 = if w > 0 {
            w as i64
        } else {
            0
        };
        let w15: i64 = fixed::clamp_i64(fixed::shr9(w_pos), 0, 0x7FFF);
        return super::expand_clear_depth(w15 as u16);
    }
    let z: i64 = fixed::clamp_i64(z as i64, -4096, 4096);
    let z15: i64 = fixed::clamp_i64(z * 4 + 0x3FFF, 0, 0x7FFF);
    z15 as i32 * 512
}

/// The alpha of a fragment: modulated by the texel's in modes 0 and 2, the
/// polygon's in the others.
pub open spec fn alpha_of(mode: int, tex_alpha: u8, poly_alpha: u8) -> u8 {
    if mode == 0 || mode == 2 {
        texture::modulated(tex_alpha as int, poly_alpha as int) as u8
    } else {
        poly_alpha
    }
}

pub fn final_alpha(mode: u8, tex_alpha: u8, poly_alpha: u8) -> (r: u8)
    ensures
        r == alpha_of(mode as int, tex_alpha, poly_alpha),
        poly_alpha <= 31 ==> r <= 31,
{
    match mode {
        // Modulation and toon/highlight use the same 6-bit formula for alpha as
        // for color.
        0 | 2 => texture::modulate_level(tex_alpha as u32, poly_alpha as u32) as u8,
        // Decal uses texture alpha only as a color mix ratio; shadow follows
        // polygon alpha as well.
        _ => poly_alpha,
    }
}

/// One channel of toon or highlight shading.
pub open spec fn toon_channel(texel: int, shade: int, highlight: bool) -> int {
    let lit = ((texture::widen(texel) + 1) * (texture::widen(shade) + 1) - 1) / 64;
    texture::narrow(
        if highlight { fixed::min(lit + texture::widen(shade), 63) } else { lit },
    )
}

/// Toon or highlight shading: the vertex color's red channel selects a shade,
/// which modulates the texel; highlight adds the shade once more.
pub open spec fn toon(r: RasterState, texel: Texel, vertex_color: u16) -> (u16, u8) {
    let shade = r.toon_table[bgr555::red(vertex_color)];
    let highlight = r.control(2);
    if texel.alpha == 0 {
        (0u16, 0u8)
    } else {
        (
            bgr555::pack(
                toon_channel(bgr555::red(texel.color), bgr555::red(shade), highlight),
                toon_channel(bgr555::green(texel.color), bgr555::green(shade), highlight),
                toon_channel(bgr555::blue(texel.color), bgr555::blue(shade), highlight),
            ),
            texel.alpha,
        )
    }
}

fn shade_toon_channel(texel: u32, shade: u32, highlight: bool) -> (r: u32)
    requires
        texel <= 31,
        shade <= 31,
    ensures
        r == toon_channel(texel as int, shade as int, highlight),
        r <= 31,
{
    let t: u32 = texture::expand_5_to_6(texel);
    let s: u32 = texture::expand_5_to_6(shade);
    proof {
        assert(1 <= (t + 1) * (s + 1) <= 64 * 64) by (nonlinear_arith)
            requires
                0 <= t <= 63,
                0 <= s <= 63,
        ;
    }
    let mut out: u32 = ((t + 1) * (s + 1) - 1) / 64;
    if highlight {
        out = if out + s < 63 {
            out + s
        } else {
            63
        };
    }
    texture::shrink_6_to_5(out)
}

fn combine_toon_highlight(texel: Texel, vertex_color: u16, rast: &Rasterizer) -> (r: (u16, u8))
    ensures
        r == toon(rast@, texel, vertex_color),
{
    if texel.alpha == 0 {
        return (0, 0);
    }
    let shade: u16 = rast.toon_table[(vertex_color % 32) as usize];
    let highlight: bool = fixed::has_bit(rast.disp3dcnt as u32, 2);
    let (tr, tg, tb): (u32, u32, u32) = bgr555::channels(texel.color);
    let (sr, sg, sb): (u32, u32, u32) = bgr555::channels(shade);
    (
        bgr555::make(
            shade_toon_channel(tr, sr, highlight),
            shade_toon_channel(tg, sg, highlight),
            shade_toon_channel(tb, sb, highlight),
        ),
        texel.alpha,
    )
}

/// Color and alpha of a fragment from its texel, if the polygon is textured,
/// and its vertex color.
pub open spec fn shaded(
    r: RasterState,
    mode: int,
    texel: Option<Texel>,
    vertex_color: u16,
) -> (u16, u8) {
    if mode == 2 {
        toon(
            r,
            match texel {
                Some(t) => t,
                None => Texel { color: 0x7FFF, alpha: 31 },
            },
            vertex_color,
        )
    } else {
        match texel {
            Some(t) => texture::combined(t, vertex_color, mode),
            None => (vertex_color, 31u8),
        }
    }
}

fn shade(rast: &Rasterizer, mode: u8, texel: Option<Texel>, vertex_color: u16) -> (r: (u16, u8))
    requires
        texel matches Some(t) ==> t.alpha <= 31,
    ensures
        r == shaded(rast@, mode as int, texel, vertex_color),
{
    if mode == 2 {
        let t: Texel = match texel {
            Some(t) => t,
            None => Texel { color: 0x7FFF, alpha: 31 },
        };
        combine_toon_highlight(t, vertex_color, rast)
    } else {
        match texel {
            Some(t) => texture::combine_with_vertex(t, vertex_color, mode),
            None => (vertex_color, 31),
        }
    }
}

/// The texture coordinate, in pixels, of a coordinate over W.
pub open spec fn texture_coord(over_w: int, inv_w: int) -> int {
    fixed::wrap_i32(fixed::tdiv(over_w * 16, inv_w)) as int / 16
}

fn recover_texture_coord(over_w: i64, inv_w: i64) -> (r: i32)
    requires
        -0x20_0000_0000_0000 <= over_w <= 0x20_0000_0000_0000,
        inv_w >= 1,
    ensures
        r == texture_coord(over_w as int, inv_w as int),
{
    let q: i64 = fixed::div_trunc(over_w * 16, inv_w);
    fixed::shr4(fixed::narrow_i32(q as i128) as i64) as i32
}

/// The texel at ratio `t` between two vertices.
pub open spec fn texel_between(
    a: Vert,
    b: Vert,
    t: int,
    surface: Surface,
    banks: Seq<BankState>,
) -> Texel {
    let inv = fixed::max(lerp(a.inv_w as int, b.inv_w as int, t), 1);
    texture::texel_at(
        surface.tex,
        texture_coord(lerp(a.s_over_w as int, b.s_over_w as int, t), inv),
        texture_coord(lerp(a.t_over_w as int, b.t_over_w as int, t), inv),
        surface.palette_base,
        banks,
    )
}

fn sample_between(a: &Vert, b: &Vert, t: i64, surface: &Surface, vram: &VramRouter) -> (r: Texel)
    requires
        a.wf(),
        b.wf(),
        0 <= t <= 65536,
        surface.tex.wf(),
        vram.wf(),
    ensures
        r == texel_between(*a, *b, t as int, *surface, vram@),
        r.alpha <= 31,
{
    let inv: i64 = lerp_i64(a.inv_w, b.inv_w, t);
    let inv_w: i64 = if inv > 1 {
        inv
    } else {
        1
    };
    let s_w: i64 = lerp_i64(a.s_over_w, b.s_over_w, t);
    let t_w: i64 = lerp_i64(a.t_over_w, b.t_over_w, t);
    texture::sample(
        surface.tex,
        recover_texture_coord(s_w, inv_w),
        recover_texture_coord(t_w, inv_w),
        surface.palette_base,
        vram,
    )
}

/// Whether fragments of the surface take their color from a texture.
pub open spec fn textured(r: RasterState, surface: Surface, banks: Option<Seq<BankState>>) -> bool {
    r.control(1) && surface.tex.format != 0 && banks is Some
}

/// The texel between two vertices, where the surface is textured.
pub open spec fn surface_texel(
    r: RasterState,
    a: Vert,
    b: Vert,
    t: int,
    surface: Surface,
    banks: Option<Seq<BankState>>,
) -> Option<Texel> {
    if textured(r, surface, banks) {
        Some(texel_between(a, b, t, surface, banks->0))
    } else {
        None
    }
}

fn fetch_texel(
    rast: &Rasterizer,
    a: &Vert,
    b: &Vert,
    t: i64,
    surface: &Surface,
    vram: Option<&VramRouter>,
) -> (r: Option<Texel>)
    requires
        a.wf(),
        b.wf(),
        0 <= t <= 65536,
        surface.tex.wf(),
        vram matches Some(v) ==> v.wf(),
    ensures
        r == surface_texel(rast@, *a, *b, t as int, *surface, super::banks_of(vram)),
        r matches Some(texel) ==> texel.alpha <= 31,
{
    if fixed::has_bit(rast.disp3dcnt as u32, 1) && !surface.tex.is_disabled() {
        match vram {
            Some(v) => Some(sample_between(a, b, t, surface, v)),
            None => None,
        }
    } else {
        None
    }
}

/// One perspective-correct color channel.
pub open spec fn channel_between(a: int, b: int, t: int, inv_w: int) -> int {
    fixed::min(lerp(a, b, t) / inv_w, 31)
}

/// The perspective-correct vertex color at ratio `t` between two vertices.
pub open spec fn color_between(a: Vert, b: Vert, t: int) -> u16 {
    let inv = fixed::max(lerp(a.inv_w as int, b.inv_w as int, t), 1);
    bgr555::pack(
        channel_between(a.r_over_w as int, b.r_over_w as int, t, inv),
        channel_between(a.g_over_w as int, b.g_over_w as int, t, inv),
        channel_between(a.b_over_w as int, b.b_over_w as int, t, inv),
    )
}

fn recover_channel(a: i64, b: i64, t: i64, inv_w: i64) -> (r: u32)
    requires
        0 <= a,
        0 <= b,
        0 <= t <= 65536,
        inv_w >= 1,
    ensures
        r == channel_between(a as int, b as int, t as int, inv_w as int),
        r <= 31,
{
    let over_w: i64 = lerp_i64(a, b, t);
    let c: i64 = fixed::div_trunc(over_w, inv_w);
    assert(c >= 0) by (nonlinear_arith)
        requires
            c == over_w as int / inv_w as int,
            over_w >= 0,
            inv_w >= 1,
    ;
    if c < 31 {
        c as u32
    } else {
        31
    }
}

fn interpolate_color(a: &Vert, b: &Vert, t: i64) -> (r: u16)
    requires
        a.wf(),
        b.wf(),
        0 <= t <= 65536,
    ensures
        r == color_between(*a, *b, t as int),
{
    let inv: i64 = lerp_i64(a.inv_w, b.inv_w, t);
    let inv_w: i64 = if inv > 1 {
        inv
    } else {
        1
    };
    bgr555::make(
        recover_channel(a.r_over_w, b.r_over_w, t, inv_w),
        recover_channel(a.g_over_w, b.g_over_w, t, inv_w),
        recover_channel(a.b_over_w, b.b_over_w, t, inv_w),
    )
}

/// The ratio at column `x` of a span from `a` to `b`.
pub open spec fn span_ratio(a: Vert, b: Vert, x: int) -> int {
    fixed::min(fixed::max(x * 256 - a.x, 0) * 65536 / fixed::max(b.x - a.x, 1), 65536)
}

/// The fragment at column `x` of a span from `a` to `b`.
pub open spec fn span_fragment(
    r: RasterState,
    a: Vert,
    b: Vert,
    x: int,
    surface: Surface,
    banks: Option<Seq<BankState>>,
) -> Fragment {
    let t = span_ratio(a, b, x);
    let paint = shaded(
        r,
        surface.mode as int,
        surface_texel(r, a, b, t, surface, banks),
        color_between(a, b, t),
    );
    Fragment {
        color: paint.0,
        alpha: alpha_of(surface.mode as int, paint.1, a.alpha),
        depth: depth_value(
            lerp(a.depth as int, b.depth as int, t),
            lerp(a.w as int, b.w as int, t),
            r.w_buffering,
        ),
        attr: a.attr,
        poly_id: a.poly_id,
        source: Source::Fill,
    }
}

/// The state after the columns `left..x` of a span on row `y`.
pub open spec fn span_drawn(
    r: RasterState,
    y: int,
    a: Vert,
    b: Vert,
    surface: Surface,
    banks: Option<Seq<BankState>>,
    left: int,
    x: int,
) -> RasterState
    decreases x - left,
{
    if x <= left {
        r
    } else {
        let before = span_drawn(r, y, a, b, surface, banks, left, x - 1);
        plotted(before, x - 1, y, span_fragment(before, a, b, x - 1, surface, banks))
    }
}

/// First column of a span that starts at `a`.
pub open spec fn span_left(a: Vert) -> int {
    fixed::max((a.x + 128) / 256, 0)
}

/// Last column of a span that ends at `b`.
pub open spec fn span_right(b: Vert, exclude_edge: bool) -> int {
    fixed::min((b.x + 128) / 256, 255) - if exclude_edge { 1int } else { 0 }
}

/// The state after drawing the span between two edge points on row `y`.
pub open spec fn scanline_drawn(
    r: RasterState,
    y: int,
    p: Vert,
    q: Vert,
    surface: Surface,
    banks: Option<Seq<BankState>>,
) -> RasterState {
    let a = if p.x > q.x { q } else { p };
    let b = if p.x > q.x { p } else { q };
    span_drawn(
        r,
        y,
        a,
        b,
        surface,
        banks,
        span_left(a),
        span_right(b, surface.exclude_lower_right_edges) + 1,
    )
}

fn draw_span_pixel(
    x: i64,
    y: i64,
    a: &Vert,
    b: &Vert,
    rast: &mut Rasterizer,
    vram: Option<&VramRouter>,
    surface: &Surface,
)
    requires
        old(rast)@.wf(),
        0 <= x < 256,
        0 <= y < 192,
        a.wf(),
        b.wf(),
        a.x <= b.x,
        surface.tex.wf(),
        vram matches Some(v) ==> v.wf(),
    ensures
        final(rast)@.wf(),
        final(rast)@ == plotted(
            old(rast)@,
            x as int,
            y as int,
            span_fragment(old(rast)@, *a, *b, x as int, *surface, super::banks_of(vram)),
        ),
{
    let width: i64 = b.x as i64 - a.x as i64;
    let dx_total: i64 = if width > 1 {
        width
    } else {
        1
    };
    let from_left: i64 = x * 256 - a.x as i64;
    let along: i64 = if from_left > 0 {
        from_left
    } else {
        0
    };
    let ratio: i64 = fixed::div_trunc(along * I_SCALE, dx_total);
    proof {
        assert(ratio >= 0) by (nonlinear_arith)
            requires
                ratio == (along * 65536) / (dx_total as int),
                along >= 0,
                dx_total >= 1,
        ;
    }
    let t: i64 = if ratio < I_SCALE {
        ratio
    } else {
        I_SCALE
    };
    let texel: Option<Texel> = fetch_texel(rast, a, b, t, surface, vram);
    let vertex_color: u16 = interpolate_color(a, b, t);
    let (color, tex_alpha): (u16, u8) = shade(rast, surface.mode, texel, vertex_color);
    let depth: i32 = depth_to_buffer(
        lerp_i32(a.depth, b.depth, t),
        lerp_i32(a.w, b.w, t),
        rast.w_buffering,
    );
    plot(
        rast,
        x as usize,
        y as usize,
        Fragment {
            color,
            alpha: final_alpha(surface.mode, tex_alpha, a.alpha),
            depth,
            attr: a.attr,
            poly_id: a.poly_id,
            source: Source::Fill,
        },
    );
}

/// Draw the span between two edge points on one row.
fn rasterize_scanline(
    y: i64,
    p: Vert,
    q: Vert,
    rast: &mut Rasterizer,
    vram: Option<&VramRouter>,
    surface: &Surface,
)
    requires
        old(rast)@.wf(),
        0 <= y < 192,
        p.wf(),
        q.wf(),
        surface.tex.wf(),
        vram matches Some(v) ==> v.wf(),
    ensures
        final(rast)@.wf(),
        final(rast)@ == scanline_drawn(old(rast)@, y as int, p, q, *surface, super::banks_of(vram)),
{
    let (a, b): (Vert, Vert) = if p.x > q.x {
        (q, p)
    } else {
        (p, q)
    };
    let first: i64 = fixed::shr8(a.x as i64 + 128);
    let x_left: i64 = if first > 0 {
        first
    } else {
        0
    };
    let last: i64 = fixed::shr8(b.x as i64 + 128);
    let mut x_right: i64 = if last < 255 {
        last
    } else {
        255
    };
    if surface.exclude_lower_right_edges {
        x_right = x_right - 1;
    }
    if x_left > x_right {
        return;
    }
    let ghost start = rast@;
    let ghost banks = super::banks_of(vram);
    let mut x: i64 = x_left;
    while x <= x_right
        invariant
            0 <= y < 192,
            0 <= x_left <= x <= x_right + 1,
            x_right <= 255,
            a.wf(),
            b.wf(),
            a.x <= b.x,
            surface.tex.wf(),
            vram matches Some(v) ==> v.wf(),
            banks == super::banks_of(vram),
            rast@.wf(),
            rast@ == span_drawn(start, y as int, a, b, *surface, banks, x_left as int, x as int),
        decreases x_right + 1 - x,
    {
        draw_span_pixel(x, y, &a, &b, rast, vram, surface);
        x = x + 1;
    }
}

/// Three vertices sorted by row.
pub open spec fn by_row(v0: Vert, v1: Vert, v2: Vert) -> (Vert, Vert, Vert) {
    let (a, b) = if v0.y > v1.y { (v1, v0) } else { (v0, v1) };
    let (b, c) = if b.y > v2.y { (v2, b) } else { (b, v2) };
    if a.y > b.y { (b, a, c) } else { (a, b, c) }
}

/// The ratio at row `y` of the edge from `a` down to `b`.
pub open spec fn row_ratio(a: Vert, b: Vert, y: int) -> int {
    (y - a.y) * 65536 / (b.y - a.y)
}

/// The state after the rows `top..y` between a long edge `l0`-`l1` and a short
/// edge `s0`-`s1`.
pub open spec fn rows_drawn(
    r: RasterState,
    l0: Vert,
    l1: Vert,
    s0: Vert,
    s1: Vert,
    surface: Surface,
    banks: Option<Seq<BankState>>,
    top: int,
    y: int,
) -> RasterState
    decreases y - top,
{
    if y <= top {
        r
    } else {
        scanline_drawn(
            rows_drawn(r, l0, l1, s0, s1, surface, banks, top, y - 1),
            y - 1,
            lerp_verts(s0, s1, row_ratio(s0, s1, y - 1)),
            lerp_verts(l0, l1, row_ratio(l0, l1, y - 1)),
            surface,
            banks,
        )
    }
}

/// The rows of one half of a triangle that lie on the screen.
pub open spec fn half_drawn(
    r: RasterState,
    l0: Vert,
    l1: Vert,
    s0: Vert,
    s1: Vert,
    surface: Surface,
    banks: Option<Seq<BankState>>,
) -> RasterState {
    rows_drawn(
        r,
        l0,
        l1,
        s0,
        s1,
        surface,
        banks,
        fixed::max(s0.y as int, 0),
        fixed::min(s1.y as int, 192),
    )
}

/// The state after drawing a triangle: the rows from its top vertex to just
/// above its bottom vertex, upper half first.
pub open spec fn triangle_drawn(
    r: RasterState,
    v0: Vert,
    v1: Vert,
    v2: Vert,
    surface: Surface,
    banks: Option<Seq<BankState>>,
) -> RasterState {
    let (a, b, c) = by_row(v0, v1, v2);
    half_drawn(half_drawn(r, a, c, a, b, surface, banks), a, c, b, c, surface, banks)
}

fn ratio_at_row(a: &Vert, b: &Vert, y: i64) -> (t: i64)
    requires
        a.wf(),
        b.wf(),
        a.y <= y <= b.y,
        a.y < b.y,
    ensures
        t == row_ratio(*a, *b, y as int),
        0 <= t <= 65536,
{
    let d: i64 = b.y as i64 - a.y as i64;
    let k: i64 = y - a.y as i64;
    proof {
        assert(0 <= (k * 65536) / (d as int) <= 65536) by (nonlinear_arith)
            requires
                0 <= k <= d,
                d > 0,
        ;
    }
    fixed::div_trunc(k * I_SCALE, d)
}

fn rasterize_half(
    l0: &Vert,
    l1: &Vert,
    s0: &Vert,
    s1: &Vert,
    rast: &mut Rasterizer,
    vram: Option<&VramRouter>,
    surface: &Surface,
)
    requires
        old(rast)@.wf(),
        l0.wf(),
        l1.wf(),
        s0.wf(),
        s1.wf(),
        l0.y <= s0.y <= s1.y <= l1.y,
        surface.tex.wf(),
        vram matches Some(v) ==> v.wf(),
    ensures
        final(rast)@.wf(),
        final(rast)@ == half_drawn(
            old(rast)@,
            *l0,
            *l1,
            *s0,
            *s1,
            *surface,
            super::banks_of(vram),
        ),
{
    let top: i64 = if s0.y > 0 {
        s0.y as i64
    } else {
        0
    };
    let bottom: i64 = if s1.y < 192 {
        s1.y as i64
    } else {
        192
    };
    let ghost start = rast@;
    let ghost banks = super::banks_of(vram);
    if top >= bottom {
        return;
    }
    let mut y: i64 = top;
    while y < bottom
        invariant
            0 <= top <= y <= bottom <= 192,
            s0.y <= top,
            bottom <= s1.y,
            l0.wf(),
            l1.wf(),
            s0.wf(),
            s1.wf(),
            l0.y <= s0.y <= s1.y <= l1.y,
            surface.tex.wf(),
            vram matches Some(v) ==> v.wf(),
            banks == super::banks_of(vram),
            rast@.wf(),
            rast@ == rows_drawn(
                start,
                *l0,
                *l1,
                *s0,
                *s1,
                *surface,
                banks,
                top as int,
                y as int,
            ),
        decreases bottom - y,
    {
        let t_long: i64 = ratio_at_row(l0, l1, y);
        let t_short: i64 = ratio_at_row(s0, s1, y);
        let edge_long: Vert = lerp_vert(l0, l1, t_long);
        let edge_short: Vert = lerp_vert(s0, s1, t_short);
        rasterize_scanline(y, edge_short, edge_long, rast, vram, surface);
        y = y + 1;
    }
}

fn rasterize_triangle(
    v0: Vert,
    v1: Vert,
    v2: Vert,
    rast: &mut Rasterizer,
    vram: Option<&VramRouter>,
    surface: &Surface,
)
    requires
        old(rast)@.wf(),
        v0.wf(),
        v1.wf(),
        v2.wf(),
        surface.tex.wf(),
        vram matches Some(v) ==> v.wf(),
    ensures
        final(rast)@.wf(),
        final(rast)@ == triangle_drawn(
            old(rast)@,
            v0,
            v1,
            v2,
            *surface,
            super::banks_of(vram),
        ),
{
    let (a, b): (Vert, Vert) = if v0.y > v1.y {
        (v1, v0)
    } else {
        (v0, v1)
    };
    let (b, c): (Vert, Vert) = if b.y > v2.y {
        (v2, b)
    } else {
        (b, v2)
    };
    let (a, b): (Vert, Vert) = if a.y > b.y {
        (b, a)
    } else {
        (a, b)
    };
    rasterize_half(&a, &c, &a, &b, rast, vram, surface);
    rasterize_half(&a, &c, &b, &c, rast, vram, surface);
}

/// A line between two pixels.
pub struct Segment {
    pub x0: int,
    pub y0: int,
    pub x1: int,
    pub y1: int,
}

/// Progress along a line: pixels moved in each direction, and the error term
/// that decides the next move.
pub struct Cursor {
    pub i: int,
    pub j: int,
    pub err: int,
}

impl Segment {
    pub open spec fn dx(self) -> int {
        fixed::abs(self.x1 - self.x0)
    }

    pub open spec fn dy(self) -> int {
        fixed::abs(self.y1 - self.y0)
    }

    /// Moves from one end to the other.
    pub open spec fn steps(self) -> int {
        fixed::max(self.dx(), self.dy())
    }

    /// The column after `i` moves.
    pub open spec fn column(self, i: int) -> int {
        if self.x0 < self.x1 { self.x0 + i } else { self.x0 - i }
    }

    /// The row after `j` moves.
    pub open spec fn row(self, j: int) -> int {
        if self.y0 < self.y1 { self.y0 + j } else { self.y0 - j }
    }

    /// One move of the line drawing algorithm.
    pub open spec fn advanced(self, c: Cursor) -> Cursor {
        let across = 2 * c.err >= -self.dy();
        let down = 2 * c.err <= self.dx();
        Cursor {
            i: if across { c.i + 1 } else { c.i },
            j: if down { c.j + 1 } else { c.j },
            err: c.err - (if across { self.dy() } else { 0 }) + (if down { self.dx() } else { 0 }),
        }
    }

    /// The cursor after `k` moves.
    pub open spec fn cursor(self, k: int) -> Cursor
        decreases k,
    {
        if k <= 0 {
            Cursor { i: 0, j: 0, err: self.dx() - self.dy() }
        } else {
            self.advanced(self.cursor(k - 1))
        }
    }

    /// Along the longer axis the cursor moves at every step, and the error term
    /// stays within bounds that fix the other axis.
    pub proof fn lemma_cursor(self, k: int)
        requires
            0 <= k <= self.steps(),
        ensures
            ({
                let c = self.cursor(k);
                let a = self.dx();
                let b = self.dy();
                &&& c.err == a * (c.j + 1) - b * (c.i + 1)
                &&& 0 <= c.i <= k
                &&& 0 <= c.j <= k
                &&& a >= b ==> c.i == k && -b <= 2 * c.err <= 3 * a - 2 * b
                &&& a < b ==> c.j == k && 2 * a - 3 * b <= 2 * c.err <= a
            }),
        decreases k,
    {
        let a = self.dx();
        let b = self.dy();
        if k == 0 {
            assert(a * 1 == a && b * 1 == b);
        } else {
            self.lemma_cursor(k - 1);
            let c = self.cursor(k - 1);
            let d = self.advanced(c);
            assert(a * (c.j + 2) == a * (c.j + 1) + a) by (nonlinear_arith);
            assert(b * (c.i + 2) == b * (c.i + 1) + b) by (nonlinear_arith);
            assert(self.cursor(k) == d);
        }
    }

    /// The line drawing algorithm ends exactly at the far end, after as many
    /// moves as the longer axis has, and not before.
    pub proof fn law_line_reaches_end(self)
        ensures
            self.column(self.cursor(self.steps()).i) == self.x1,
            self.row(self.cursor(self.steps()).j) == self.y1,
            forall|k: int|
                0 <= k < self.steps() ==> !(self.column((#[trigger] self.cursor(k)).i) == self.x1
                    && self.row(self.cursor(k).j) == self.y1),
    {
        let a = self.dx();
        let b = self.dy();
        let n = self.steps();
        let c = self.cursor(n);
        self.lemma_cursor(n);
        if a >= b {
            lemma_minor_axis(a, b, c.j, c.err);
        } else {
            lemma_minor_axis(b, a, c.i, -c.err);
        }
        assert forall|k: int| 0 <= k < n implies !(self.column((#[trigger] self.cursor(k)).i)
            == self.x1 && self.row(self.cursor(k).j) == self.y1) by {
            self.lemma_cursor(k);
        }
    }
}

/// After `a` moves along the major axis, the minor axis has made all its `b`
/// moves.
proof fn lemma_minor_axis(a: int, b: int, j: int, err: int)
    requires
        0 <= b <= a,
        0 <= j <= a,
        err == a * (j + 1) - b * (a + 1),
        -b <= 2 * err <= 3 * a - 2 * b,
    ensures
        j == b,
{
    if a > 0 {
        assert(j <= b) by (nonlinear_arith)
            requires
                0 <= b <= a,
                0 <= j,
                a > 0,
                2 * (a * (j + 1) - b * (a + 1)) <= 3 * a - 2 * b,
        ;
        if b > 0 {
            assert(j >= b) by (nonlinear_arith)
                requires
                    0 < b <= a,
                    0 <= j,
                    -b <= 2 * (a * (j + 1) - b * (a + 1)),
            ;
        }
    }
}

/// The line between the pixels of two screen vertices.
pub open spec fn segment_of(a: ScreenVertex, b: ScreenVertex) -> Segment {
    Segment {
        x0: a.screen_x as int / 256,
        y0: a.screen_y as int / 256,
        x1: b.screen_x as int / 256,
        y1: b.screen_y as int / 256,
    }
}

/// The vertex color at ratio `t` of a line: linear in screen space.
pub open spec fn line_color(a: u16, b: u16, t: int) -> u16 {
    bgr555::pack(
        lerp(bgr555::red(a), bgr555::red(b), t),
        lerp(bgr555::green(a), bgr555::green(b), t),
        lerp(bgr555::blue(a), bgr555::blue(b), t),
    )
}

/// The fragment at ratio `t` of a line. A polygon alpha of 0, which selects
/// wireframe, draws with alpha 31.
pub open spec fn line_fragment(
    r: RasterState,
    a: ScreenVertex,
    b: ScreenVertex,
    t: int,
    attr: u32,
    poly_id: u8,
    surface: Surface,
    banks: Option<Seq<BankState>>,
) -> Fragment {
    let mode = surface.mode as int;
    let attr_alpha = (attr as int / 0x1_0000 % 32) as u8;
    let poly_alpha: u8 = if attr_alpha == 0 { 31 } else { attr_alpha };
    let texel = surface_texel(
        r,
        vert_of(a, attr, poly_id, poly_alpha),
        vert_of(b, attr, poly_id, poly_alpha),
        t,
        surface,
        banks,
    );
    let paint = shaded(r, mode, texel, line_color(a.color, b.color, t));
    Fragment {
        color: paint.0,
        alpha: alpha_of(mode, paint.1, poly_alpha),
        depth: depth_value(
            lerp(a.depth_z as int, b.depth_z as int, t),
            lerp(a.w as int, b.w as int, t),
            r.w_buffering,
        ),
        attr,
        poly_id,
        source: Source::Line,
    }
}

/// The state after the first `k` pixels of a line; pixels off the screen are
/// skipped.
pub open spec fn line_drawn(
    r: RasterState,
    a: ScreenVertex,
    b: ScreenVertex,
    attr: u32,
    poly_id: u8,
    surface: Surface,
    banks: Option<Seq<BankState>>,
    k: int,
) -> RasterState
    decreases k,
{
    if k <= 0 {
        r
    } else {
        let before = line_drawn(r, a, b, attr, poly_id, surface, banks, k - 1);
        let line = segment_of(a, b);
        let c = line.cursor(k - 1);
        let x = line.column(c.i);
        let y = line.row(c.j);
        let t = (k - 1) * 65536 / fixed::max(line.steps(), 1);
        if 0 <= x < 256 && 0 <= y < 192 {
            plotted(before, x, y, line_fragment(before, a, b, t, attr, poly_id, surface, banks))
        } else {
            before
        }
    }
}

/// How the polygon `p` is painted in state `r`.
pub open spec fn surface_of(p: ScreenPolygonState, r: RasterState) -> Surface {
    let mode = (p.attr as int / 16 % 4) as u8;
    let tex = texture::params_of(p.tex_image_param);
    Surface {
        tex,
        palette_base: p.palette_base,
        mode,
        exclude_lower_right_edges: excludes_edges(p.attr, tex.format, mode, r),
    }
}

/// The state after drawing the whole line between two vertices of `p`.
pub open spec fn wire_drawn(
    r: RasterState,
    a: ScreenVertex,
    b: ScreenVertex,
    p: ScreenPolygonState,
    banks: Option<Seq<BankState>>,
) -> RasterState {
    line_drawn(
        r,
        a,
        b,
        p.attr,
        polygon_id(p),
        surface_of(p, r),
        banks,
        segment_of(a, b).steps() + 1,
    )
}

/// The polygon ID, 6 bits.
pub open spec fn polygon_id(p: ScreenPolygonState) -> u8 {
    (p.attr as int / 0x100_0000 % 64) as u8
}

/// The polygon alpha, 5 bits.
pub open spec fn polygon_alpha(p: ScreenPolygonState) -> u8 {
    (p.attr as int / 0x1_0000 % 32) as u8
}

/// Whether spans leave out their right edge: opaque polygons without edge
/// marking and anti-aliasing, and translucent ones without alpha blending.
pub open spec fn excludes_edges(attr: u32, format: u8, mode: u8, r: RasterState) -> bool {
    let alpha = attr as int / 0x1_0000 % 32;
    let alpha_texture = (mode == 0 || mode == 2) && (format == 1 || format == 6);
    if alpha == 0 {
        false
    } else if alpha == 31 && !r.control(0x20) && !r.control(0x10) {
        true
    } else {
        (alpha < 31 || alpha_texture) && !r.control(8)
    }
}

/// Twice the signed area over the first `n` edges of a polygon.
pub open spec fn double_area(vs: Seq<ScreenVertex>, n: int) -> int
    decreases n,
{
    if n <= 0 {
        0
    } else {
        let a = vs[n - 1];
        let b = vs[n % vs.len() as int];
        double_area(vs, n - 1) + (a.screen_x * b.screen_y - b.screen_x * a.screen_y)
    }
}

/// Twice the signed area of a polygon.
pub open spec fn area_of(p: ScreenPolygonState) -> int {
    double_area(p.vertices, p.vertices.len() as int)
}

/// Whether the side of the polygon that faces the screen is drawn: attribute
/// bit 7 for the front, bit 6 for the back. A polygon without area is always
/// drawn.
pub open spec fn surface_visible(p: ScreenPolygonState) -> bool {
    let area = area_of(p);
    let front = if p.front_area_negative { area < 0 } else { area > 0 };
    area == 0 || fixed::bit(p.attr as int, if front { 0x80 } else { 0x40 })
}

/// The first vertex from `i` on that lies elsewhere than the first one.
pub open spec fn first_apart(vs: Seq<ScreenVertex>, i: int) -> Option<int>
    decreases vs.len() - i,
{
    if i < 0 || i >= vs.len() {
        None
    } else if vs[i].screen_x != vs[0].screen_x || vs[i].screen_y != vs[0].screen_y {
        Some(i)
    } else {
        first_apart(vs, i + 1)
    }
}

/// The state after a polygon of zero size.
pub open spec fn point_drawn(r: RasterState, v: ScreenVertex, attr: u32, poly_id: u8) -> RasterState {
    let x = v.screen_x as int / 256;
    let y = v.screen_y as int / 256;
    let mode = attr as int / 16 % 4;
    if 0 <= x < 256 && 0 <= y < 192 {
        plotted(
            r,
            x,
            y,
            Fragment {
                color: v.color,
                alpha: alpha_of(mode, 31, (attr as int / 0x1_0000 % 32) as u8),
                depth: depth_value(v.depth_z as int, v.w as int, r.w_buffering),
                attr,
                poly_id,
                source: Source::Point,
            },
        )
    } else {
        r
    }
}

/// The state after the first `n` edges of a wireframe.
pub open spec fn wireframe_drawn(
    r: RasterState,
    p: ScreenPolygonState,
    banks: Option<Seq<BankState>>,
    n: int,
) -> RasterState
    decreases n,
{
    if n <= 0 {
        r
    } else {
        wire_drawn(
            wireframe_drawn(r, p, banks, n - 1),
            p.vertices[n - 1],
            p.vertices[n % p.vertices.len() as int],
            p,
            banks,
        )
    }
}

/// The state after the triangles of the fan around vertex 0 up to vertex `k`.
pub open spec fn fan_drawn(
    r: RasterState,
    p: ScreenPolygonState,
    surface: Surface,
    banks: Option<Seq<BankState>>,
    k: int,
) -> RasterState
    decreases k,
{
    if k <= 1 {
        r
    } else {
        let id = polygon_id(p);
        let alpha = polygon_alpha(p);
        triangle_drawn(
            fan_drawn(r, p, surface, banks, k - 1),
            vert_of(p.vertices[0], p.attr, id, alpha),
            vert_of(p.vertices[k - 1], p.attr, id, alpha),
            vert_of(p.vertices[k], p.attr, id, alpha),
            surface,
            banks,
        )
    }
}

/// The state after drawing one polygon: nothing with fewer than three vertices
/// or with its visible side disabled; a line or a point where it has no area;
/// its outline for alpha 0; otherwise a fan of triangles.
pub open spec fn polygon_drawn(
    r: RasterState,
    p: ScreenPolygonState,
    banks: Option<Seq<BankState>>,
) -> RasterState {
    if p.vertices.len() < 3 || !surface_visible(p) {
        r
    } else if area_of(p) == 0 {
        match first_apart(p.vertices, 0) {
            Some(i) => wire_drawn(r, p.vertices[0], p.vertices[i], p, banks),
            None => point_drawn(r, p.vertices[0], p.attr, polygon_id(p)),
        }
    } else if polygon_alpha(p) == 0 {
        wireframe_drawn(r, p, banks, p.vertices.len() as int)
    } else {
        fan_drawn(r, p, surface_of(p, r), banks, p.vertices.len() - 1)
    }
}

fn lerp_screen_color(a: u16, b: u16, t: i64) -> (r: u16)
    requires
        0 <= t <= 65536,
    ensures
        r == line_color(a, b, t as int),
{
    let (ar, ag, ab): (u32, u32, u32) = bgr555::channels(a);
    let (br, bg, bb): (u32, u32, u32) = bgr555::channels(b);
    bgr555::make(
        lerp_i64(ar as i64, br as i64, t) as u32,
        lerp_i64(ag as i64, bg as i64, t) as u32,
        lerp_i64(ab as i64, bb as i64, t) as u32,
    )
}

fn draw_line_pixel(
    x: i64,
    y: i64,
    t: i64,
    a: &ScreenVertex,
    b: &ScreenVertex,
    attr: u32,
    poly_id: u8,
    surface: &Surface,
    rast: &mut Rasterizer,
    vram: Option<&VramRouter>,
)
    requires
        old(rast)@.wf(),
        0 <= x < 256,
        0 <= y < 192,
        0 <= t <= 65536,
        poly_id < 64,
        surface.tex.wf(),
        vram matches Some(v) ==> v.wf(),
    ensures
        final(rast)@.wf(),
        final(rast)@ == plotted(
            old(rast)@,
            x as int,
            y as int,
            line_fragment(
                old(rast)@,
                *a,
                *b,
                t as int,
                attr,
                poly_id,
                *surface,
                super::banks_of(vram),
            ),
        ),
{
    // A polygon alpha of 0 selects wireframe; wire pixels use 31.
    let attr_alpha: u8 = ((attr / 0x1_0000) % 32) as u8;
    let poly_alpha: u8 = if attr_alpha == 0 {
        31
    } else {
        attr_alpha
    };
    let va: Vert = Vert::from(a, attr, poly_id, poly_alpha);
    let vb: Vert = Vert::from(b, attr, poly_id, poly_alpha);
    let texel: Option<Texel> = fetch_texel(rast, &va, &vb, t, surface, vram);
    let vertex_color: u16 = lerp_screen_color(a.color, b.color, t);
    let (color, tex_alpha): (u16, u8) = shade(rast, surface.mode, texel, vertex_color);
    let depth: i32 = depth_to_buffer(
        lerp_i32(a.depth_z, b.depth_z, t),
        lerp_i32(a.w, b.w, t),
        rast.w_buffering,
    );
    plot(
        rast,
        x as usize,
        y as usize,
        Fragment {
            color,
            alpha: final_alpha(surface.mode, tex_alpha, poly_alpha),
            depth,
            attr,
            poly_id,
            source: Source::Line,
        },
    );
}

/// Draw the line between two vertices of a polygon.
fn draw_wire_line(
    a: &ScreenVertex,
    b: &ScreenVertex,
    p: &ScreenPolygon,
    poly_id: u8,
    rast: &mut Rasterizer,
    vram: Option<&VramRouter>,
)
    requires
        old(rast)@.wf(),
        poly_id == polygon_id(p@),
        vram matches Some(v) ==> v.wf(),
    ensures
        final(rast)@.wf(),
        final(rast)@ == wire_drawn(old(rast)@, *a, *b, p@, super::banks_of(vram)),
{
    let attr: u32 = p.attr;
    let surface: Surface = surface_for(p, rast);
    let x0: i64 = fixed::shr8(a.screen_x as i64);
    let y0: i64 = fixed::shr8(a.screen_y as i64);
    let x1: i64 = fixed::shr8(b.screen_x as i64);
    let y1: i64 = fixed::shr8(b.screen_y as i64);
    let dx: i64 = if x0 < x1 {
        x1 - x0
    } else {
        x0 - x1
    };
    let dy: i64 = if y0 < y1 {
        y1 - y0
    } else {
        y0 - y1
    };
    let steps: i64 = if dx >= dy {
        dx
    } else {
        dy
    };
    let scale: i64 = if steps > 1 {
        steps
    } else {
        1
    };
    let ghost line = segment_of(*a, *b);
    let ghost start = rast@;
    let ghost banks = super::banks_of(vram);
    let mut i: i64 = 0;
    let mut j: i64 = 0;
    let mut err: i64 = dx - dy;
    let mut step: i64 = 0;
    loop
        invariant_except_break
            0 <= step <= steps,
            rast@ == line_drawn(start, *a, *b, attr, poly_id, surface, banks, step as int),
        invariant
            line == segment_of(*a, *b),
            x0 == line.x0,
            y0 == line.y0,
            x1 == line.x1,
            y1 == line.y1,
            -0x80_0000 <= x0 < 0x80_0000,
            -0x80_0000 <= y0 < 0x80_0000,
            -0x80_0000 <= x1 < 0x80_0000,
            -0x80_0000 <= y1 < 0x80_0000,
            dx == line.dx(),
            dy == line.dy(),
            steps == line.steps(),
            scale == fixed::max(steps as int, 1),
            poly_id < 64,
            surface.tex.wf(),
            vram matches Some(v) ==> v.wf(),
            banks == super::banks_of(vram),
            rast@.wf(),
            i == line.cursor(step as int).i,
            j == line.cursor(step as int).j,
            err == line.cursor(step as int).err,
        ensures
            rast@ == line_drawn(start, *a, *b, attr, poly_id, surface, banks, steps + 1),
        decreases steps - step,
    {
        proof {
            line.lemma_cursor(step as int);
        }
        let x: i64 = if x0 < x1 {
            x0 + i
        } else {
            x0 - i
        };
        let y: i64 = if y0 < y1 {
            y0 + j
        } else {
            y0 - j
        };
        if x >= 0 && x < 256 && y >= 0 && y < 192 {
            proof {
                assert(0 <= (step * 65536) / (scale as int) <= 65536) by (nonlinear_arith)
                    requires
                        0 <= step <= scale,
                        scale >= 1,
                ;
            }
            let t: i64 = fixed::div_trunc(step * I_SCALE, scale);
            draw_line_pixel(x, y, t, a, b, attr, poly_id, &surface, rast, vram);
        }
        if step == steps {
            break;
        }
        let e2: i64 = 2 * err;
        if e2 >= -dy {
            err = err - dy;
            i = i + 1;
        }
        if e2 <= dx {
            err = err + dx;
            j = j + 1;
        }
        step = step + 1;
    }
}

/// Whether spans of a polygon leave out their right edge.
fn uses_small_polygon_fill_rule(attr: u32, format: u8, mode: u8, rast: &Rasterizer) -> (r: bool)
    ensures
        r == excludes_edges(attr, format, mode, rast@),
{
    let alpha: u32 = (attr / 0x1_0000) % 32;
    if alpha == 0 {
        return false;
    }
    let control: u32 = rast.disp3dcnt as u32;
    let edge_marking: bool = fixed::has_bit(control, 0x20);
    let antialiasing: bool = fixed::has_bit(control, 0x10);
    if alpha == 31 && !edge_marking && !antialiasing {
        return true;
    }
    let translucent_texture: bool = (mode == 0 || mode == 2) && (format == 1 || format == 6);
    (alpha < 31 || translucent_texture) && !fixed::has_bit(control, 8)
}

fn surface_for(p: &ScreenPolygon, rast: &Rasterizer) -> (r: Surface)
    ensures
        r == surface_of(p@, rast@),
        r.tex.wf(),
{
    let mode: u8 = ((p.attr / 16) % 4) as u8;
    let tex: TexParams = TexParams::from_register(p.tex_image_param);
    Surface {
        tex,
        palette_base: p.palette_base,
        mode,
        exclude_lower_right_edges: uses_small_polygon_fill_rule(p.attr, tex.format, mode, rast),
    }
}

fn draw_point(v: &ScreenVertex, attr: u32, poly_id: u8, rast: &mut Rasterizer)
    requires
        old(rast)@.wf(),
        poly_id < 64,
    ensures
        final(rast)@.wf(),
        final(rast)@ == point_drawn(old(rast)@, *v, attr, poly_id),
{
    let x: i64 = fixed::shr8(v.screen_x as i64);
    let y: i64 = fixed::shr8(v.screen_y as i64);
    if x < 0 || x >= 256 || y < 0 || y >= 192 {
        return;
    }
    let mode: u8 = ((attr / 16) % 4) as u8;
    let poly_alpha: u8 = ((attr / 0x1_0000) % 32) as u8;
    let depth: i32 = depth_to_buffer(v.depth_z, v.w, rast.w_buffering);
    plot(
        rast,
        x as usize,
        y as usize,
        Fragment {
            color: v.color,
            alpha: final_alpha(mode, 31, poly_alpha),
            depth,
            attr,
            poly_id,
            source: Source::Point,
        },
    );
}

/// Twice the signed area of a polygon.
fn signed_area_2x(p: &ScreenPolygon) -> (r: i128)
    ensures
        r == area_of(p@),
{
    let n: usize = p.vertices.len();
    let mut area: i128 = 0;
    for i in 0..n
        invariant
            n == p.vertices@.len(),
            area == double_area(p.vertices@, i as int),
            -(i * 0x8000_0000_0000_0000) <= area <= i * 0x8000_0000_0000_0000,
    {
        let a: &ScreenVertex = &p.vertices[i];
        let next: usize = if i + 1 == n {
            0
        } else {
            i + 1
        };
        let b: &ScreenVertex = &p.vertices[next];
        proof {
            fixed::lemma_i32_product(a.screen_x, b.screen_y);
            fixed::lemma_i32_product(b.screen_x, a.screen_y);
            assert((i + 1) % p.vertices@.len() as int == next) by {
                if i + 1 < n {
                    vstd::arithmetic::div_mod::lemma_small_mod((i + 1) as nat, n as nat);
                } else {
                    vstd::arithmetic::div_mod::lemma_mod_self_0(n as int);
                }
            }
        }
        area = area + (a.screen_x as i128 * b.screen_y as i128 - b.screen_x as i128
            * a.screen_y as i128);
    }
    area
}

fn polygon_surface_enabled(p: &ScreenPolygon, area: i128) -> (r: bool)
    requires
        area == area_of(p@),
    ensures
        r == surface_visible(p@),
{
    if area == 0 {
        // Line-like polygons have no facing and are always drawn.
        return true;
    }
    let render_back: bool = fixed::has_bit(p.attr, 0x40);
    let render_front: bool = fixed::has_bit(p.attr, 0x80);
    let front: bool = if p.front_area_negative {
        area < 0
    } else {
        area > 0
    };
    (front && render_front) || (!front && render_back)
}

/// The first vertex that lies elsewhere than the first one.
fn degenerate_line_end(p: &ScreenPolygon) -> (r: Option<usize>)
    requires
        p.vertices@.len() > 0,
    ensures
        match r {
            Some(i) => first_apart(p@.vertices, 0) == Some(i as int) && i < p.vertices@.len(),
            None => first_apart(p@.vertices, 0) is None,
        },
{
    for i in 0..p.vertices.len()
        invariant
            p.vertices@.len() > 0,
            first_apart(p@.vertices, 0) == first_apart(p@.vertices, i as int),
    {
        if p.vertices[i].screen_x != p.vertices[0].screen_x || p.vertices[i].screen_y
            != p.vertices[0].screen_y {
            return Some(i);
        }
    }
    None
}

#[verifier::spinoff_prover]
#[verifier::rlimit(40)]
fn rasterize_wireframe(
    p: &ScreenPolygon,
    rast: &mut Rasterizer,
    poly_id: u8,
    vram: Option<&VramRouter>,
)
    requires
        old(rast)@.wf(),
        poly_id == polygon_id(p@),
        vram matches Some(v) ==> v.wf(),
    ensures
        final(rast)@.wf(),
        final(rast)@ == wireframe_drawn(
            old(rast)@,
            p@,
            super::banks_of(vram),
            p@.vertices.len() as int,
        ),
{
    let n: usize = p.vertices.len();
    let ghost start = rast@;
    let ghost banks = super::banks_of(vram);
    for i in 0..n
        invariant
            n == p.vertices@.len(),
            poly_id == polygon_id(p@),
            vram matches Some(v) ==> v.wf(),
            banks == super::banks_of(vram),
            rast@.wf(),
            rast@ == wireframe_drawn(start, p@, banks, i as int),
    {
        let next: usize = if i + 1 == n {
            0
        } else {
            i + 1
        };
        proof {
            assert((i + 1) % p@.vertices.len() as int == next) by {
                if i + 1 < n {
                    vstd::arithmetic::div_mod::lemma_small_mod((i + 1) as nat, n as nat);
                } else {
                    vstd::arithmetic::div_mod::lemma_mod_self_0(n as int);
                }
            }
        }
        draw_wire_line(&p.vertices[i], &p.vertices[next], p, poly_id, rast, vram);
    }
}

/// Rasterize one polygon. `vram` is `None` where no textures are at hand.
pub fn rasterize_polygon(p: &ScreenPolygon, rast: &mut Rasterizer, vram: Option<&VramRouter>)
    requires
        old(rast)@.wf(),
        vram matches Some(v) ==> v.wf(),
    ensures
        final(rast)@.wf(),
        final(rast)@ == polygon_drawn(old(rast)@, p@, super::banks_of(vram)),
{
    let n: usize = p.vertices.len();
    if n < 3 {
        return;
    }
    let area: i128 = signed_area_2x(p);
    if !polygon_surface_enabled(p, area) {
        return;
    }
    let poly_id: u8 = ((p.attr / 0x100_0000) % 64) as u8;
    let alpha: u8 = ((p.attr / 0x1_0000) % 32) as u8;
    if area == 0 {
        match degenerate_line_end(p) {
            Some(i) => draw_wire_line(&p.vertices[0], &p.vertices[i], p, poly_id, rast, vram),
            None => draw_point(&p.vertices[0], p.attr, poly_id, rast),
        }
        return;
    }
    if alpha == 0 {
        rasterize_wireframe(p, rast, poly_id, vram);
        return;
    }
    let surface: Surface = surface_for(p, rast);
    let ghost start = rast@;
    let ghost banks = super::banks_of(vram);
    let v0: Vert = Vert::from(&p.vertices[0], p.attr, poly_id, alpha);
    for i in 1..n - 1
        invariant
            n == p.vertices@.len(),
            n >= 3,
            poly_id == polygon_id(p@),
            alpha == polygon_alpha(p@),
            v0 == vert_of(p@.vertices[0], p.attr, poly_id, alpha),
            v0.wf(),
            surface.tex.wf(),
            vram matches Some(v) ==> v.wf(),
            banks == super::banks_of(vram),
            rast@.wf(),
            rast@ == fan_drawn(start, p@, surface, banks, i as int),
    {
        let v1: Vert = Vert::from(&p.vertices[i], p.attr, poly_id, alpha);
        let v2: Vert = Vert::from(&p.vertices[i + 1], p.attr, poly_id, alpha);
        rasterize_triangle(v0, v1, v2, rast, vram, &surface);
    }
}

/// Where W is 1.0 at both ends, a texture coordinate runs linearly from one end to
/// the other, each direction on its own: the texel lies in the column of the mean
/// of the first coordinates and in the row of the mean of the second ones.
pub proof fn law_flat_texture_is_linear(
    a: ScreenVertex,
    b: ScreenVertex,
    t: int,
    attr: u32,
    poly_id: u8,
    alpha: u8,
    surface: Surface,
    banks: Seq<BankState>,
)
    requires
        0 <= t <= 65536,
        a.w == 4096,
        b.w == 4096,
    ensures
        ({
            let s = a.tex[0] * (65536 - t) + b.tex[0] * t;
            let v = a.tex[1] * (65536 - t) + b.tex[1] * t;
            texel_between(
                vert_of(a, attr, poly_id, alpha),
                vert_of(b, attr, poly_id, alpha),
                t,
                surface,
                banks,
            ) == texture::texel_at(
                surface.tex,
                fixed::tdiv(s, 65536) / 16,
                fixed::tdiv(v, 65536) / 16,
                surface.palette_base,
                banks,
            )
        }),
{
    lemma_unit_reciprocal();
    law_lerp_between(0x4000_0000, 0x4000_0000, t);
    lemma_flat_coord(a.tex[0] as int, b.tex[0] as int, t);
    lemma_flat_coord(a.tex[1] as int, b.tex[1] as int, t);
}

proof fn lemma_unit_reciprocal()
    ensures
        reciprocal(4096) == 0x4000_0000,
{
    assert(fixed::max(4096, 1) == 4096);
    assert(0x400_0000_0000int / 4096int == 0x4000_0000int);
}

proof fn lemma_flat_coord(s0: int, s1: int, t: int)
    requires
        -0x8000 <= s0 < 0x8000,
        -0x8000 <= s1 < 0x8000,
        0 <= t <= 65536,
    ensures
        s0 * 0x4000_0000 / 16 == s0 * 0x400_0000,
        s1 * 0x4000_0000 / 16 == s1 * 0x400_0000,
        texture_coord(lerp(s0 * 0x400_0000, s1 * 0x400_0000, t), 0x4000_0000) == fixed::tdiv(
            s0 * (65536 - t) + s1 * t,
            65536,
        ) / 16,
{
    let m = s0 * (65536 - t) + s1 * t;
    let d = s1 * 0x400_0000 - s0 * 0x400_0000;
    let e = (s1 - s0) * t;
    assert(d * t == e * 0x400_0000) by (nonlinear_arith)
        requires
            d == s1 * 0x400_0000 - s0 * 0x400_0000,
            e == (s1 - s0) * t,
    ;
    assert(m == s0 * 65536 + e) by (nonlinear_arith)
        requires
            m == s0 * (65536 - t) + s1 * t,
            e == (s1 - s0) * t,
    ;
    assert(-0x8000 * 65536 <= m <= 0x7FFF * 65536) by (nonlinear_arith)
        requires
            m == s0 * (65536 - t) + s1 * t,
            -0x8000 <= s0 <= 0x7FFF,
            -0x8000 <= s1 <= 0x7FFF,
            0 <= t <= 65536,
    ;
    assert(fixed::tdiv(d * t, 65536) == e * 1024);
    let over = lerp(s0 * 0x400_0000, s1 * 0x400_0000, t);
    assert(over * 16 == m * 16384);
    assert(fixed::tdiv(over * 16, 0x4000_0000) == fixed::tdiv(m, 65536));
}

/// At a vertex whose W is 1.0 the fragment takes the texel in column
/// `tex[0] / 16` and row `tex[1] / 16`, whatever the other end is.
pub proof fn law_vertex_texel(
    a: ScreenVertex,
    b: ScreenVertex,
    attr: u32,
    poly_id: u8,
    alpha: u8,
    surface: Surface,
    banks: Seq<BankState>,
)
    requires
        a.w == 4096,
    ensures
        texel_between(
            vert_of(a, attr, poly_id, alpha),
            vert_of(b, attr, poly_id, alpha),
            0,
            surface,
            banks,
        ) == texture::texel_at(
            surface.tex,
            a.tex[0] as int / 16,
            a.tex[1] as int / 16,
            surface.palette_base,
            banks,
        ),
        texel_between(
            vert_of(b, attr, poly_id, alpha),
            vert_of(a, attr, poly_id, alpha),
            65536,
            surface,
            banks,
        ) == texture::texel_at(
            surface.tex,
            a.tex[0] as int / 16,
            a.tex[1] as int / 16,
            surface.palette_base,
            banks,
        ),
{
    let va = vert_of(a, attr, poly_id, alpha);
    let vb = vert_of(b, attr, poly_id, alpha);
    lemma_unit_reciprocal();
    lemma_flat_coord(a.tex[0] as int, a.tex[0] as int, 0);
    lemma_flat_coord(a.tex[1] as int, a.tex[1] as int, 0);
    law_lerp_between(va.inv_w as int, vb.inv_w as int, 0);
    law_lerp_between(va.s_over_w as int, vb.s_over_w as int, 0);
    law_lerp_between(va.t_over_w as int, vb.t_over_w as int, 0);
    law_lerp_between(vb.inv_w as int, va.inv_w as int, 65536);
    law_lerp_between(vb.s_over_w as int, va.s_over_w as int, 65536);
    law_lerp_between(vb.t_over_w as int, va.t_over_w as int, 65536);
    law_lerp_between(va.s_over_w as int, va.s_over_w as int, 0);
    law_lerp_between(va.t_over_w as int, va.t_over_w as int, 0);
}

/// Moving the first coordinate of both ends by one texel moves the column by one
/// and keeps the row; moving the second one moves the row and keeps the column.
#[verifier::spinoff_prover]
#[verifier::rlimit(60)]
pub proof fn law_texture_moves_with_coordinates(
    a: ScreenVertex,
    b: ScreenVertex,
    right: ScreenVertex,
    down: ScreenVertex,
    attr: u32,
    poly_id: u8,
    alpha: u8,
    surface: Surface,
    banks: Seq<BankState>,
)
    requires
        a.w == 4096,
        right.w == 4096,
        down.w == 4096,
        right.tex[0] == a.tex[0] + 16,
        right.tex[1] == a.tex[1],
        down.tex[0] == a.tex[0],
        down.tex[1] == a.tex[1] + 16,
    ensures
        ({
            let u = a.tex[0] as int / 16;
            let v = a.tex[1] as int / 16;
            let va = vert_of(a, attr, poly_id, alpha);
            let vb = vert_of(b, attr, poly_id, alpha);
            let vr = vert_of(right, attr, poly_id, alpha);
            let vd = vert_of(down, attr, poly_id, alpha);
            &&& texel_between(va, vb, 0, surface, banks) == texture::texel_at(
                surface.tex,
                u,
                v,
                surface.palette_base,
                banks,
            )
            &&& texel_between(vr, vb, 0, surface, banks) == texture::texel_at(
                surface.tex,
                u + 1,
                v,
                surface.palette_base,
                banks,
            )
            &&& texel_between(vd, vb, 0, surface, banks) == texture::texel_at(
                surface.tex,
                u,
                v + 1,
                surface.palette_base,
                banks,
            )
        }),
{
    assert(right.tex[0] as int / 16 == a.tex[0] as int / 16 + 1);
    assert(down.tex[1] as int / 16 == a.tex[1] as int / 16 + 1);
    law_vertex_texel(a, b, attr, poly_id, alpha, surface, banks);
    law_vertex_texel(right, b, attr, poly_id, alpha, surface, banks);
    law_vertex_texel(down, b, attr, poly_id, alpha, surface, banks);
}

proof fn lemma_reciprocal_positive(w: i32)
    ensures
        0x800 <= reciprocal(w) <= 0x400_0000_0000,
{
    let d = fixed::max(w as int, 1);
    let q = 0x400_0000_0000int / d;
    vstd::arithmetic::div_mod::lemma_fundamental_div_mod(0x400_0000_0000, d);
    vstd::arithmetic::div_mod::lemma_mod_bound(0x400_0000_0000, d);
    assert(0x800 <= q <= 0x400_0000_0000) by (nonlinear_arith)
        requires
            0x400_0000_0000 == d * q + 0x400_0000_0000int % d,
            0 <= 0x400_0000_0000int % d < d,
            1 <= d <= 0x7FFF_FFFF,
    ;
}

proof fn lemma_lerp_error(a: int, b: int, t: int)
    requires
        0 <= t <= 65536,
    ensures
        -65536 < a * (65536 - t) + b * t - 65536 * lerp(a, b, t) < 65536,
{
    let e = (b - a) * t;
    assert(a * (65536 - t) + b * t == 65536 * a + e) by (nonlinear_arith)
        requires
            e == (b - a) * t,
    ;
    assert(-65536 < e - 65536 * fixed::tdiv(e, 65536) < 65536);
}

proof fn lemma_channel_bounds(ra: int, rb: int, ia: int, ib: int, t: int)
    requires
        0 <= ra <= 31,
        0 <= rb <= 31,
        0x800 <= ia,
        0x800 <= ib,
        0 <= t <= 65536,
    ensures
        ({
            let near = ia * (65536 - t);
            let far = ib * t;
            let c = channel_between(ra * ia, rb * ib, t, fixed::max(lerp(ia, ib, t), 1));
            &&& 0 <= c <= 31
            &&& c * (near + far) - (ra * near + rb * far) <= 0x20_0000
            &&& ra * near + rb * far - (c + 1) * (near + far) <= 0x21_0000
            &&& t == 0 ==> c == ra
            &&& t == 65536 ==> c == rb
        }),
{
    let near = ia * (65536 - t);
    let far = ib * t;
    let i = lerp(ia, ib, t);
    let l = lerp(ra * ia, rb * ib, t);
    let w = near + far;
    let n = ra * near + rb * far;
    law_lerp_between(ia, ib, t);
    law_lerp_between(ra * ia, rb * ib, t);
    lemma_lerp_error(ia, ib, t);
    lemma_lerp_error(ra * ia, rb * ib, t);
    assert(ra * ia >= 0 && rb * ib >= 0) by (nonlinear_arith)
        requires
            ra >= 0,
            rb >= 0,
            ia >= 0,
            ib >= 0,
    ;
    assert((ra * ia) * (65536 - t) + (rb * ib) * t == n) by (nonlinear_arith)
        requires
            n == ra * (ia * (65536 - t)) + rb * (ib * t),
    ;
    assert(near >= 0 && far >= 0) by (nonlinear_arith)
        requires
            near == ia * (65536 - t),
            far == ib * t,
            ia >= 0,
            ib >= 0,
            0 <= t <= 65536,
    ;
    let q = l / i;
    vstd::arithmetic::div_mod::lemma_fundamental_div_mod(l, i);
    vstd::arithmetic::div_mod::lemma_mod_bound(l, i);
    assert(q >= 0) by (nonlinear_arith)
        requires
            l == i * q + l % i,
            0 <= l % i < i,
            l >= 0,
    ;
    let c = fixed::min(q, 31);
    assert(c * i <= l) by (nonlinear_arith)
        requires
            c <= q,
            l == i * q + l % i,
            l % i >= 0,
            i > 0,
    ;
    assert(c * (65536 * i) == 65536 * (c * i)) by (nonlinear_arith);
    assert(c * (w - 65536 * i) <= 31 * 65536) by (nonlinear_arith)
        requires
            0 <= c <= 31,
            w - 65536 * i < 65536,
    ;
    assert(c * w == c * (65536 * i) + c * (w - 65536 * i)) by (nonlinear_arith);
    if q <= 31 {
        assert(l < (c + 1) * i) by (nonlinear_arith)
            requires
                c == q,
                l == i * q + l % i,
                l % i < i,
        ;
        assert((c + 1) * (65536 * i) == 65536 * ((c + 1) * i)) by (nonlinear_arith);
        assert((c + 1) * (65536 * i - w) <= 32 * 65536) by (nonlinear_arith)
            requires
                0 <= c <= 31,
                65536 * i - w < 65536,
        ;
        assert((c + 1) * w == (c + 1) * (65536 * i) - (c + 1) * (65536 * i - w))
            by (nonlinear_arith);
    } else {
        assert(n <= 31 * near + 31 * far) by (nonlinear_arith)
            requires
                n == ra * near + rb * far,
                ra <= 31,
                rb <= 31,
                near >= 0,
                far >= 0,
        ;
        assert((c + 1) * w == 32 * w);
    }
    if t == 0 {
        vstd::arithmetic::div_mod::lemma_div_multiples_vanish(ra, ia);
        assert(l == ia * ra) by (nonlinear_arith)
            requires
                l == ra * ia,
        ;
    }
    if t == 65536 {
        vstd::arithmetic::div_mod::lemma_div_multiples_vanish(rb, ib);
        assert(l == ib * rb) by (nonlinear_arith)
            requires
                l == rb * ib,
        ;
    }
}

/// Colors are perspective-correct: at either end of a span stands that end's
/// color, and between them each channel is the mean of the two ends' weighted by
/// how near each is on the screen and by the reciprocal of its W.
pub proof fn law_color_in_perspective(
    a: ScreenVertex,
    b: ScreenVertex,
    t: int,
    attr: u32,
    poly_id: u8,
    alpha: u8,
)
    requires
        1 <= a.w,
        1 <= b.w,
        0 <= t <= 65536,
    ensures
        ({
            let c = color_between(
                vert_of(a, attr, poly_id, alpha),
                vert_of(b, attr, poly_id, alpha),
                t,
            );
            let near = 0x400_0000_0000int / a.w as int * (65536 - t);
            let far = 0x400_0000_0000int / b.w as int * t;
            &&& t == 0 ==> c == a.color % 0x8000
            &&& t == 65536 ==> c == b.color % 0x8000
            &&& weighted_mean(
                c as int % 32,
                a.color as int % 32,
                near,
                b.color as int % 32,
                far,
            )
            &&& weighted_mean(
                c as int / 32 % 32,
                a.color as int / 32 % 32,
                near,
                b.color as int / 32 % 32,
                far,
            )
            &&& weighted_mean(
                c as int / 1024 % 32,
                a.color as int / 1024 % 32,
                near,
                b.color as int / 1024 % 32,
                far,
            )
        }),
{
    let ia = reciprocal(a.w);
    let ib = reciprocal(b.w);
    lemma_reciprocal_positive(a.w);
    lemma_reciprocal_positive(b.w);
    lemma_channel_over_w(bgr555::red(a.color), ia);
    lemma_channel_over_w(bgr555::green(a.color), ia);
    lemma_channel_over_w(bgr555::blue(a.color), ia);
    lemma_channel_over_w(bgr555::red(b.color), ib);
    lemma_channel_over_w(bgr555::green(b.color), ib);
    lemma_channel_over_w(bgr555::blue(b.color), ib);
    lemma_channel_bounds(bgr555::red(a.color), bgr555::red(b.color), ia, ib, t);
    lemma_channel_bounds(bgr555::green(a.color), bgr555::green(b.color), ia, ib, t);
    lemma_channel_bounds(bgr555::blue(a.color), bgr555::blue(b.color), ia, ib, t);
    let inv = fixed::max(lerp(ia, ib, t), 1);
    bgr555::law_pack_channels(
        channel_between(bgr555::red(a.color) * ia, bgr555::red(b.color) * ib, t, inv),
        channel_between(bgr555::green(a.color) * ia, bgr555::green(b.color) * ib, t, inv),
        channel_between(bgr555::blue(a.color) * ia, bgr555::blue(b.color) * ib, t, inv),
    );
    bgr555::law_channels_pack(a.color);
    bgr555::law_channels_pack(b.color);
}

/// Whether `c` is the mean of `x` and `y` with weights `p` and `q`, rounded down
/// and up to the error of the ratios.
pub open spec fn weighted_mean(c: int, x: int, p: int, y: int, q: int) -> bool {
    &&& c * (p + q) <= x * p + y * q + 0x20_0000
    &&& x * p + y * q <= (c + 1) * (p + q) + 0x21_0000
}

/// Whether a channel `c` of a blend gives the top `a + 1` parts and the bottom
/// `31 - a` parts of 32.
pub open spec fn blend_of(c: int, top: int, bottom: int, a: int) -> bool {
    0 <= top * (a + 1) + bottom * (31 - a) - 32 * c < 32
}

proof fn lemma_blend_of(top: int, bottom: int, a: int)
    requires
        0 <= top <= 31,
        0 <= bottom <= 31,
        0 <= a <= 31,
    ensures
        blend_of(blended_channel(top, bottom, a), top, bottom, a),
        0 <= blended_channel(top, bottom, a) <= 31,
        a == 31 ==> blended_channel(top, bottom, a) == top,
{
    let m = top * (a + 1) + bottom * (31 - a);
    assert(0 <= m <= 31 * 32) by (nonlinear_arith)
        requires
            m == top * (a + 1) + bottom * (31 - a),
            0 <= top <= 31,
            0 <= bottom <= 31,
            0 <= a <= 31,
    ;
    if a == 31 {
        assert(m == top * 32) by (nonlinear_arith)
            requires
                m == top * (a + 1) + bottom * (31 - a),
                a == 31,
        ;
    }
}

/// Blending takes each channel of the upper color by its alpha and of the lower one
/// by what is left; at full alpha the upper color stands alone.
pub proof fn law_blend_weights(top: u16, bottom: u16, a: int)
    requires
        0 <= a <= 31,
    ensures
        ({
            let c = blended(top, bottom, a) as int;
            &&& c < 0x8000
            &&& a == 31 ==> c == top % 0x8000
            &&& blend_of(c % 32, top as int % 32, bottom as int % 32, a)
            &&& blend_of(c / 32 % 32, top as int / 32 % 32, bottom as int / 32 % 32, a)
            &&& blend_of(c / 1024 % 32, top as int / 1024 % 32, bottom as int / 1024 % 32, a)
        }),
{
    lemma_blend_of(bgr555::red(top), bgr555::red(bottom), a);
    lemma_blend_of(bgr555::green(top), bgr555::green(bottom), a);
    lemma_blend_of(bgr555::blue(top), bgr555::blue(bottom), a);
    bgr555::law_pack_channels(
        blended_channel(bgr555::red(top), bgr555::red(bottom), a),
        blended_channel(bgr555::green(top), bgr555::green(bottom), a),
        blended_channel(bgr555::blue(top), bgr555::blue(bottom), a),
    );
    bgr555::law_channels_pack(top);
}

/// A translucent fragment that passes its tests is blended over what was drawn
/// before, where `DISP3DCNT` bit 3 allows it, and stands alone otherwise. It moves
/// the depth only where attribute bit 11 says so, and keeps the fog mark of the
/// pixel only where it is fogged itself.
pub proof fn law_translucent_fragment(r: RasterState, x: int, y: int, f: Fragment)
    requires
        r.wf(),
        0 <= x < 256,
        0 <= y < 192,
        0 < f.alpha < 31,
        f.attr as int / 16 % 4 != 3,
        f.attr as int / 0x4000 % 2 == 0,
        f.depth < r.depth_buffer[y * 256 + x],
        r.disp3dcnt as int / 4 % 2 == 1 ==> f.alpha > r.alpha_test_ref,
        r.framebuffer[y * 256 + x] >= 0x8000 ==> r.translucent_id_buffer[y * 256 + x] != f.poly_id,
    ensures
        ({
            let at = y * 256 + x;
            let after = plotted(r, x, y, f);
            let old = r.framebuffer[at];
            let new = after.framebuffer[at] as int;
            let a = f.alpha as int;
            let blend = r.disp3dcnt as int / 8 % 2 == 1 && old >= 0x8000;
            &&& new >= 0x8000
            &&& !blend ==> new == f.color % 0x8000 + 0x8000
            &&& blend ==> blend_of(new % 32, f.color as int % 32, old as int % 32, a)
            &&& blend ==> blend_of(new / 32 % 32, f.color as int / 32 % 32, old as int / 32 % 32, a)
            &&& blend ==> blend_of(
                new / 1024 % 32,
                f.color as int / 1024 % 32,
                old as int / 1024 % 32,
                a,
            )
            &&& after.alpha_buffer[at] == f.alpha
            &&& after.id_buffer[at] == f.poly_id
            &&& after.translucent_id_buffer[at] == f.poly_id
            &&& after.depth_buffer[at] == if f.attr as int / 0x800 % 2 == 1 {
                f.depth
            } else {
                r.depth_buffer[at]
            }
            &&& after.fog_enable_buffer[at] == if f.attr as int / 0x8000 % 2 == 1 {
                r.fog_enable_buffer[at] % 2
            } else {
                0
            }
            &&& after.shadow_stencil[at] == r.shadow_stencil[at]
        }),
{
    let at = y * 256 + x;
    let old = r.framebuffer[at];
    let color = bgr555::mark(f.color);
    law_blend_weights(color, old, f.alpha as int);
    bgr555::law_mark(f.color);
    bgr555::law_mark(blended(color, old, f.alpha as int));
}

/// A fragment leaves no trace where it is transparent, where the alpha test is on
/// and its alpha is not above the reference, or where it is not closer than what is
/// there.
pub proof fn law_rejected_fragments(r: RasterState, x: int, y: int, f: Fragment)
    ensures
        f.alpha == 0 ==> plotted(r, x, y, f) == r,
        r.disp3dcnt as int / 4 % 2 == 1 && f.alpha <= r.alpha_test_ref ==> plotted(r, x, y, f) == r,
        f.attr as int / 0x4000 % 2 == 0 && f.depth >= r.depth_buffer[y * 256 + x] ==> plotted(
            r,
            x,
            y,
            f,
        ) == r,
        f.attr as int / 0x4000 % 2 == 1 && (f.depth > r.depth_buffer[y * 256 + x] + 0x200
            || f.depth < r.depth_buffer[y * 256 + x] - 0x200) ==> plotted(r, x, y, f) == r,
{
}

/// With attribute bit 14 an opaque fragment is drawn over what lies within 0x200 of
/// its depth, before or behind; the alpha test lets it pass unless it asks for more
/// than full alpha.
pub proof fn law_decal_depth_test(r: RasterState, x: int, y: int, f: Fragment)
    requires
        r.wf(),
        0 <= x < 256,
        0 <= y < 192,
        f.alpha == 31,
        f.attr as int / 16 % 4 != 3,
        f.attr as int / 0x4000 % 2 == 1,
        r.depth_buffer[y * 256 + x] - 0x200 <= f.depth <= r.depth_buffer[y * 256 + x] + 0x200,
        r.disp3dcnt as int / 4 % 2 == 1 ==> r.alpha_test_ref < 31,
    ensures
        ({
            let at = y * 256 + x;
            let after = plotted(r, x, y, f);
            &&& after.framebuffer[at] == f.color % 0x8000 + 0x8000
            &&& after.alpha_buffer[at] == 31
            &&& after.depth_buffer[at] == f.depth
            &&& after.id_buffer[at] == f.poly_id
            &&& after.edge_enable_buffer[at] == 1
            &&& after.translucent_id_buffer[at] == r.translucent_id_buffer[at]
            &&& after.fog_enable_buffer[at] == if f.attr as int / 0x8000 % 2 == 1 { 1u8 } else { 0 }
            &&& after.zero_dot_buffer[at] == if f.source == Source::Point { 1u8 } else { 0 }
        }),
{
}

/// Shadows: polygon ID 0 marks the stencil and draws nothing; other IDs draw
/// nothing where the stencil is marked, and take the mark away, nor on a polygon
/// of their own ID.
pub proof fn law_shadow_stencil(r: RasterState, x: int, y: int, f: Fragment)
    requires
        r.wf(),
        0 <= x < 256,
        0 <= y < 192,
        f.alpha > 0,
        f.source == Source::Fill,
        f.attr as int / 16 % 4 == 3,
        f.attr as int / 0x4000 % 2 == 0,
        f.depth < r.depth_buffer[y * 256 + x],
        r.disp3dcnt as int / 4 % 2 == 1 ==> f.alpha > r.alpha_test_ref,
    ensures
        ({
            let at = y * 256 + x;
            let after = plotted(r, x, y, f);
            let marked = r.shadow_stencil[at] != 0;
            &&& after.shadow_stencil[at] == if f.poly_id == 0 {
                1
            } else if marked {
                0
            } else {
                r.shadow_stencil[at]
            }
            &&& f.poly_id == 0 || marked || r.id_buffer[at] == f.poly_id ==> {
                &&& after.framebuffer == r.framebuffer
                &&& after.depth_buffer == r.depth_buffer
                &&& after.id_buffer == r.id_buffer
                &&& after.alpha_buffer == r.alpha_buffer
            }
            &&& f.poly_id != 0 && !marked && r.id_buffer[at] != f.poly_id ==> {
                &&& after.id_buffer[at] == f.poly_id
                &&& after.alpha_buffer[at] == f.alpha
                &&& after.framebuffer[at] >= 0x8000
            }
        }),
{
    bgr555::law_mark(f.color);
    bgr555::law_mark(blended(bgr555::mark(f.color), r.framebuffer[y * 256 + x], f.alpha as int));
}

/// The depth grows with the depth of the point: with W-buffering it follows W alone,
/// in steps of 512, otherwise Z alone, of which 1.0 in front gives the nearest and
/// 1.0 behind the farthest value.
pub proof fn law_depth_follows_distance(z: int, w: int, z2: int, w2: int)
    ensures
        z <= z2 ==> depth_value(z, w, false) <= depth_value(z2, w2, false),
        w <= w2 ==> depth_value(z, w, true) <= depth_value(z2, w2, true),
        z <= -4096 ==> depth_value(z, w, false) == 0,
        z >= 4096 ==> depth_value(z, w, false) == 0x7FFF * 512,
        -4095 <= z <= 4096 && z2 == z + 1 && z2 <= 4096 ==> depth_value(z2, w, false)
            == depth_value(z, w, false) + 2048,
        depth_value(0, w, false) == 0x3FFF * 512,
        0 <= w < 0x7FFF * 512 ==> depth_value(z, w, true) == w / 512 * 512,
        w >= 0x7FFF * 512 ==> depth_value(z, w, true) == 0xFF_FFFF,
        w <= 0 ==> depth_value(z, w, true) == 0,
{
}

/// Alpha: in modes 0 and 2 that of texel and polygon multiplied, an opaque texel
/// leaving the polygon's and a clear one nothing; in modes 1 and 3 the polygon's.
pub proof fn law_fragment_alpha(texel: u8, polygon: u8)
    requires
        texel <= 31,
        polygon <= 31,
    ensures
        alpha_of(1, texel, polygon) == polygon,
        alpha_of(3, texel, polygon) == polygon,
        alpha_of(0, 31, polygon) == polygon,
        alpha_of(0, texel, 31) == texel,
        alpha_of(0, 0, polygon) == 0,
        alpha_of(0, texel, polygon) == alpha_of(0, polygon, texel),
        alpha_of(0, texel, polygon) <= texel,
        alpha_of(2, texel, polygon) == alpha_of(0, texel, polygon),
{
    texture::law_modulation(texel as int, polygon as int, 31);
    texture::law_modulation(polygon as int, texel as int, 31);
}

/// Toon shading takes its shade from the toon table, at the red level of the vertex
/// color, green and blue not mattering. Without a texture the shade itself is seen;
/// under a white shade the texel; under a black one nothing.
pub proof fn law_toon_shade(r: RasterState, texel: Texel, vertex: u16)
    requires
        r.disp3dcnt as int / 2 % 2 == 0,
        texel.alpha > 0,
    ensures
        ({
            let shade = r.toon_table[vertex as int % 32];
            let c = shaded(r, 2, Some(texel), vertex);
            &&& shaded(r, 2, None, vertex) == ((shade % 0x8000) as u16, 31u8)
            &&& c.1 == texel.alpha
            &&& shade % 0x8000 == 0x7FFF ==> c.0 == texel.color % 0x8000
            &&& shade % 0x8000 == 0 ==> c.0 == 0
            &&& shaded(r, 2, Some(texel), (vertex % 32) as u16) == c
        }),
{
    let shade = r.toon_table[vertex as int % 32];
    lemma_toon_channels(texel.color, shade);
    lemma_toon_channels(0x7FFF, shade);
    bgr555::law_channels_pack(shade);
    bgr555::law_channels_pack(texel.color);
    assert(bgr555::pack(0, 0, 0) == 0);
}

proof fn lemma_toon_channels(texel: u16, shade: u16)
    ensures
        texel == 0x7FFF ==> {
            &&& toon_channel(bgr555::red(texel), bgr555::red(shade), false) == bgr555::red(shade)
            &&& toon_channel(bgr555::green(texel), bgr555::green(shade), false) == bgr555::green(
                shade,
            )
            &&& toon_channel(bgr555::blue(texel), bgr555::blue(shade), false) == bgr555::blue(shade)
        },
        shade % 0x8000 == 0x7FFF ==> {
            &&& toon_channel(bgr555::red(texel), bgr555::red(shade), false) == bgr555::red(texel)
            &&& toon_channel(bgr555::green(texel), bgr555::green(shade), false) == bgr555::green(
                texel,
            )
            &&& toon_channel(bgr555::blue(texel), bgr555::blue(shade), false) == bgr555::blue(texel)
        },
        shade % 0x8000 == 0 ==> {
            &&& toon_channel(bgr555::red(texel), bgr555::red(shade), false) == 0
            &&& toon_channel(bgr555::green(texel), bgr555::green(shade), false) == 0
            &&& toon_channel(bgr555::blue(texel), bgr555::blue(shade), false) == 0
        },
{
    lemma_toon_channel(bgr555::red(texel), bgr555::red(shade));
    lemma_toon_channel(bgr555::green(texel), bgr555::green(shade));
    lemma_toon_channel(bgr555::blue(texel), bgr555::blue(shade));
    if shade % 0x8000 == 0x7FFF {
        assert(shade == 0x7FFF || shade == 0xFFFF);
    }
    if shade % 0x8000 == 0 {
        assert(shade == 0 || shade == 0x8000);
    }
}

proof fn lemma_toon_channel(texel: int, shade: int)
    requires
        0 <= texel <= 31,
        0 <= shade <= 31,
    ensures
        texel == 31 ==> toon_channel(texel, shade, false) == shade,
        shade == 31 ==> toon_channel(texel, shade, false) == texel,
        shade == 0 ==> toon_channel(texel, shade, false) == 0,
        toon_channel(texel, shade, false) == texture::modulated(texel, shade),
{
    texture::law_modulation(texel, shade, 31);
    texture::law_modulation(shade, texel, 31);
}

/// Highlighting adds the shade on top: never darker than the shade nor than toon
/// shading, white under a white shade, and the same as toon shading under a black
/// one.
pub proof fn law_highlight_adds_shade(texel: int, shade: int)
    requires
        0 <= texel <= 31,
        0 <= shade <= 31,
    ensures
        toon_channel(texel, shade, true) >= toon_channel(texel, shade, false),
        toon_channel(texel, shade, true) >= shade,
        shade == 31 ==> toon_channel(texel, shade, true) == 31,
        shade == 0 ==> toon_channel(texel, shade, true) == 0,
        toon_channel(texel, shade, true) <= toon_channel(texel, shade, false) + shade + 1,
{
    let x = texture::widen(texel) + 1;
    let y = texture::widen(shade) + 1;
    assert(1 <= x * y <= 64 * 64) by (nonlinear_arith)
        requires
            1 <= x <= 64,
            1 <= y <= 64,
    ;
    if shade == 0 {
        assert(x * y == x) by (nonlinear_arith)
            requires
                y == 1,
        ;
    }
}

/// Without toon shading an untextured fragment has the vertex color.
pub proof fn law_untextured_color(r: RasterState, mode: int, vertex: u16)
    requires
        mode != 2,
    ensures
        shaded(r, mode, None, vertex) == (vertex, 31u8),
{
}

/// The ratio runs from 0 at the left end of a span to 1 at its right end, in
/// proportion to the columns between them.
pub proof fn law_span_ratio(a: Vert, b: Vert, x: int)
    requires
        a.x < b.x,
    ensures
        x * 256 <= a.x ==> span_ratio(a, b, x) == 0,
        x * 256 >= b.x ==> span_ratio(a, b, x) == 65536,
        a.x <= x * 256 <= b.x ==> 0 <= (x * 256 - a.x) * 65536 - span_ratio(a, b, x) * (b.x - a.x)
            < b.x - a.x,
{
    let n = fixed::max(x * 256 - a.x, 0) * 65536;
    let d = b.x - a.x;
    vstd::arithmetic::div_mod::lemma_fundamental_div_mod(n, d);
    vstd::arithmetic::div_mod::lemma_mod_bound(n, d);
    let q = n / d;
    if x * 256 <= a.x {
        vstd::arithmetic::div_mod::lemma_basic_div(0, d);
    } else if x * 256 >= b.x {
        assert(q >= 65536) by (nonlinear_arith)
            requires
                n == d * q + n % d,
                n % d < d,
                n >= d * 65536,
                d > 0,
        ;
    } else {
        assert(q <= 65536) by (nonlinear_arith)
            requires
                n == d * q + n % d,
                n % d >= 0,
                n <= d * 65536,
                d > 0,
        ;
        assert(q * d == d * q) by (nonlinear_arith);
    }
    let t = span_ratio(a, b, x);
    if x * 256 == a.x {
        assert(t * d == 0) by (nonlinear_arith)
            requires
                t == 0,
        ;
    } else if x * 256 == b.x {
        assert(t * d == 65536 * d) by (nonlinear_arith)
            requires
                t == 65536,
        ;
    }
}

/// On an edge from `a` down to `b` the ratio is 0 in the row of `a` and in proportion
/// to the rows below it.
pub proof fn law_row_ratio(a: Vert, b: Vert, y: int)
    requires
        a.y < b.y,
        a.y <= y <= b.y,
    ensures
        y == a.y ==> row_ratio(a, b, y) == 0,
        y == b.y ==> row_ratio(a, b, y) == 65536,
        0 <= (y - a.y) * 65536 - row_ratio(a, b, y) * (b.y - a.y) < b.y - a.y,
{
    let n = (y - a.y) * 65536;
    let d = b.y - a.y;
    let q = n / d;
    vstd::arithmetic::div_mod::lemma_fundamental_div_mod(n, d);
    vstd::arithmetic::div_mod::lemma_mod_bound(n, d);
    assert(q * d == d * q) by (nonlinear_arith);
    if y == a.y {
        vstd::arithmetic::div_mod::lemma_basic_div(0, d);
    }
    if y == b.y {
        vstd::arithmetic::div_mod::lemma_div_multiples_vanish(65536, d);
        assert(n == d * 65536) by (nonlinear_arith)
            requires
                n == (b.y - a.y) * 65536,
                d == b.y - a.y,
        ;
    }
}

/// Sorting by row gives the same three vertices, from the top down.
pub proof fn law_sorted_by_row(v0: Vert, v1: Vert, v2: Vert)
    ensures
        ({
            let (a, b, c) = by_row(v0, v1, v2);
            &&& a.y <= b.y <= c.y
            &&& seq![a, b, c].to_multiset() == seq![v0, v1, v2].to_multiset()
        }),
{
    let (a, b, c) = by_row(v0, v1, v2);
    let s = seq![v0, v1, v2];
    let t = seq![a, b, c];
    lemma_three(v0, v1, v2);
    lemma_three(a, b, c);
}

proof fn lemma_three(a: Vert, b: Vert, c: Vert)
    ensures
        seq![a, b, c].to_multiset() == vstd::multiset::Multiset::<Vert>::empty().insert(a).insert(
            b,
        ).insert(c),
{
    let e = Seq::<Vert>::empty();
    e.to_multiset_ensures();
    e.push(a).to_multiset_ensures();
    e.push(a).push(b).to_multiset_ensures();
    assert(e.to_multiset() =~= vstd::multiset::Multiset::<Vert>::empty());
    assert(e.push(a).to_multiset() =~= e.to_multiset().insert(a));
    assert(e.push(a).push(b).to_multiset() =~= e.push(a).to_multiset().insert(b));
    assert(e.push(a).push(b).push(c).to_multiset() =~= e.push(a).push(b).to_multiset().insert(c));
    assert(seq![a, b, c] =~= e.push(a).push(b).push(c));
}

/// Twice the signed area of a triangle is the cross product of two of its sides:
/// positive where the vertices turn from the x axis towards the y axis.
pub proof fn law_triangle_area(p: ScreenPolygonState)
    requires
        p.vertices.len() == 3,
    ensures
        ({
            let (a, b, c) = (p.vertices[0], p.vertices[1], p.vertices[2]);
            area_of(p) == (b.screen_x - a.screen_x) * (c.screen_y - a.screen_y) - (c.screen_x
                - a.screen_x) * (b.screen_y - a.screen_y)
        }),
{
    reveal_with_fuel(double_area, 4);
    let (a, b, c) = (p.vertices[0], p.vertices[1], p.vertices[2]);
    let (ax, ay) = (a.screen_x as int, a.screen_y as int);
    let (bx, by) = (b.screen_x as int, b.screen_y as int);
    let (cx, cy) = (c.screen_x as int, c.screen_y as int);
    assert(1int % 3 == 1 && 2int % 3 == 2 && 3int % 3 == 0);
    assert(double_area(p.vertices, 1) == ax * by - bx * ay);
    assert(double_area(p.vertices, 2) == (ax * by - bx * ay) + (bx * cy - cx * by));
    assert(double_area(p.vertices, 3) == (ax * by - bx * ay) + (bx * cy - cx * by) + (cx * ay - ax
        * cy));
    assert((bx - ax) * (cy - ay) - (cx - ax) * (by - ay) == (ax * by - bx * ay) + (bx * cy - cx
        * by) + (cx * ay - ax * cy)) by (nonlinear_arith);
}

/// Attribute bit 7 shows the front of a polygon and bit 6 its back. Which side a
/// winding is, the polygon says; without area it is always shown.
pub proof fn law_visible_side(p: ScreenPolygonState)
    ensures
        ({
            let front = p.attr as int / 0x80 % 2 == 1;
            let back = p.attr as int / 0x40 % 2 == 1;
            let clockwise = area_of(p) > 0;
            &&& area_of(p) == 0 ==> surface_visible(p)
            &&& area_of(p) != 0 && p.front_area_negative ==> surface_visible(p) == if clockwise {
                back
            } else {
                front
            }
            &&& area_of(p) != 0 && !p.front_area_negative ==> surface_visible(p) == if clockwise {
                front
            } else {
                back
            }
        }),
{
}

/// A polygon with fewer than three vertices, or one whose visible side is switched
/// off, changes nothing.
pub proof fn law_hidden_polygon_draws_nothing(
    r: RasterState,
    p: ScreenPolygonState,
    banks: Option<Seq<BankState>>,
)
    requires
        p.vertices.len() < 3 || !surface_visible(p),
    ensures
        polygon_drawn(r, p, banks) == r,
{
}

/// A polygon of zero size that is drawn reaches the pixel in which it lies, with the
/// color of its first vertex; nothing off the screen.
pub proof fn law_point_polygon(
    r: RasterState,
    p: ScreenPolygonState,
    banks: Option<Seq<BankState>>,
)
    requires
        p.vertices.len() == 3,
        p.vertices[1].screen_x == p.vertices[0].screen_x,
        p.vertices[1].screen_y == p.vertices[0].screen_y,
        p.vertices[2].screen_x == p.vertices[0].screen_x,
        p.vertices[2].screen_y == p.vertices[0].screen_y,
    ensures
        ({
            let v = p.vertices[0];
            let x = v.screen_x as int / 256;
            let y = v.screen_y as int / 256;
            let alpha = (p.attr as int / 0x1_0000 % 32) as u8;
            if 0 <= x < 256 && 0 <= y < 192 {
                polygon_drawn(r, p, banks) == plotted(
                    r,
                    x,
                    y,
                    Fragment {
                        color: v.color,
                        alpha,
                        depth: depth_value(v.depth_z as int, v.w as int, r.w_buffering),
                        attr: p.attr,
                        poly_id: (p.attr as int / 0x100_0000 % 64) as u8,
                        source: Source::Point,
                    },
                )
            } else {
                polygon_drawn(r, p, banks) == r
            }
        }),
{
    law_triangle_area(p);
    let (ax, ay) = (p.vertices[0].screen_x as int, p.vertices[0].screen_y as int);
    assert((ax - ax) * (ay - ay) == 0) by (nonlinear_arith);
    reveal_with_fuel(first_apart, 4);
    assert(first_apart(p.vertices, 0) is None);
    let alpha = (p.attr as int / 0x1_0000 % 32) as u8;
    law_fragment_alpha(31, alpha);
    assert(alpha_of(p.attr as int / 16 % 4, 31, alpha) == alpha);
}

/// Two states with the same registers shade alike.
proof fn lemma_same_fragment(
    r: RasterState,
    s: RasterState,
    a: Vert,
    b: Vert,
    x: int,
    surface: Surface,
    banks: Option<Seq<BankState>>,
)
    requires
        r.same_registers(s),
    ensures
        span_fragment(r, a, b, x, surface, banks) == span_fragment(s, a, b, x, surface, banks),
{
    let t = span_ratio(a, b, x);
    assert(textured(r, surface, banks) == textured(s, surface, banks));
    let texel = surface_texel(r, a, b, t, surface, banks);
    assert(texel == surface_texel(s, a, b, t, surface, banks));
    let c = color_between(a, b, t);
    assert(shaded(r, surface.mode as int, texel, c) == shaded(s, surface.mode as int, texel, c));
}

/// Whether two states agree on what is drawn at a pixel, its edge mark apart.
pub open spec fn same_picture(a: RasterState, b: RasterState, i: int) -> bool {
    &&& a.framebuffer[i] == b.framebuffer[i]
    &&& a.alpha_buffer[i] == b.alpha_buffer[i]
    &&& a.depth_buffer[i] == b.depth_buffer[i]
    &&& a.id_buffer[i] == b.id_buffer[i]
    &&& a.translucent_id_buffer[i] == b.translucent_id_buffer[i]
    &&& a.fog_enable_buffer[i] == b.fog_enable_buffer[i]
    &&& a.zero_dot_buffer[i] == b.zero_dot_buffer[i]
    &&& a.shadow_stencil[i] == b.shadow_stencil[i]
}

proof fn lemma_plot_is_local(r: RasterState, s: RasterState, x: int, y: int, f: Fragment)
    requires
        r.wf(),
        s.wf(),
        r.same_registers(s),
        0 <= x < 256,
        0 <= y < 192,
        f.poly_id < 64,
        same_picture(r, s, y * 256 + x),
    ensures
        same_picture(plotted(r, x, y, f), plotted(s, x, y, f), y * 256 + x),
{
}

proof fn lemma_span_keeps_shape(
    r: RasterState,
    y: int,
    a: Vert,
    b: Vert,
    surface: Surface,
    banks: Option<Seq<BankState>>,
    left: int,
    right: int,
)
    requires
        r.wf(),
        0 <= y < 192,
        a.poly_id < 64,
        0 <= left,
        right <= 256,
    ensures
        ({
            let s = span_drawn(r, y, a, b, surface, banks, left, right);
            &&& s.wf()
            &&& s.same_registers(r)
            &&& forall|i: int|
                0 <= i < FB_PIXELS && !(y * 256 + left <= i < y * 256 + right) ==> same_pixel(
                    s,
                    r,
                    i,
                )
        }),
    decreases right - left,
{
    if right > left {
        lemma_span_keeps_shape(r, y, a, b, surface, banks, left, right - 1);
        let before = span_drawn(r, y, a, b, surface, banks, left, right - 1);
        let f = span_fragment(before, a, b, right - 1, surface, banks);
        law_fragment_touches_one_pixel(before, right - 1, y, f);
        let s = plotted(before, right - 1, y, f);
        assert forall|i: int|
            0 <= i < FB_PIXELS && !(y * 256 + left <= i < y * 256 + right) implies same_pixel(
            s,
            r,
            i,
        ) by {
            assert(same_pixel(before, r, i));
            assert(same_pixel(s, before, i));
        }
    }
}

/// A span is drawn pixel by pixel: each of its columns gets the fragment for that
/// column, once, over what the row held before.
pub proof fn law_span_draws_each_column(
    r: RasterState,
    y: int,
    a: Vert,
    b: Vert,
    surface: Surface,
    banks: Option<Seq<BankState>>,
    left: int,
    right: int,
    x: int,
)
    requires
        r.wf(),
        0 <= y < 192,
        a.poly_id < 64,
        0 <= left <= x < right <= 256,
    ensures
        same_picture(
            span_drawn(r, y, a, b, surface, banks, left, right),
            plotted(r, x, y, span_fragment(r, a, b, x, surface, banks)),
            y * 256 + x,
        ),
    decreases right,
{
    let before = span_drawn(r, y, a, b, surface, banks, left, right - 1);
    lemma_span_keeps_shape(r, y, a, b, surface, banks, left, right - 1);
    let f = span_fragment(before, a, b, right - 1, surface, banks);
    if x == right - 1 {
        lemma_same_fragment(before, r, a, b, x, surface, banks);
        assert(same_pixel(before, r, y * 256 + x));
        lemma_plot_is_local(before, r, x, y, f);
    } else {
        law_span_draws_each_column(r, y, a, b, surface, banks, left, right - 1, x);
        law_fragment_touches_one_pixel(before, right - 1, y, f);
        assert(same_pixel(plotted(before, right - 1, y, f), before, y * 256 + x));
    }
}

/// Between two points of a row are drawn the columns from half a pixel before the
/// left one to half a pixel after the right one, the last of them only where the
/// surface does not leave out its right edges. Everything else on the screen stays.
pub proof fn law_scanline_columns(
    r: RasterState,
    y: int,
    a: Vert,
    b: Vert,
    surface: Surface,
    banks: Option<Seq<BankState>>,
    x: int,
    row: int,
)
    requires
        r.wf(),
        0 <= y < 192,
        0 <= row < 192,
        0 <= x < 256,
        a.x <= b.x,
        a.poly_id < 64,
        row != y || 256 * x <= a.x - 128 || 256 * x > b.x + 128,
    ensures
        same_pixel(scanline_drawn(r, y, a, b, surface, banks), r, row * 256 + x),
{
    let left = span_left(a);
    let right = span_right(b, surface.exclude_lower_right_edges) + 1;
    lemma_span_keeps_shape(r, y, a, b, surface, banks, left, right);
    let i = row * 256 + x;
    if row == y {
        assert(!(y * 256 + left <= i < y * 256 + right));
    }
}

/// A column between the two points gets its fragment, the rightmost one only where
/// right edges are drawn.
pub proof fn law_scanline_fills(
    r: RasterState,
    y: int,
    a: Vert,
    b: Vert,
    surface: Surface,
    banks: Option<Seq<BankState>>,
    x: int,
)
    requires
        r.wf(),
        0 <= y < 192,
        0 <= x < 256,
        a.x <= b.x,
        a.poly_id < 64,
        256 * x > a.x - 128,
        256 * x <= b.x + 128 - if surface.exclude_lower_right_edges { 256int } else { 0 },
        surface.exclude_lower_right_edges ==> x < 255,
    ensures
        same_picture(
            scanline_drawn(r, y, a, b, surface, banks),
            plotted(r, x, y, span_fragment(r, a, b, x, surface, banks)),
            y * 256 + x,
        ),
{
    let left = span_left(a);
    let right = span_right(b, surface.exclude_lower_right_edges) + 1;
    law_span_draws_each_column(r, y, a, b, surface, banks, left, right, x);
}

/// What a fragment of a span is made of: the attributes and the ID of its polygon,
/// the depth of its point, and the color and alpha that its texel, if it has one,
/// and its vertex color give.
pub proof fn law_span_fragment_parts(
    r: RasterState,
    a: Vert,
    b: Vert,
    x: int,
    surface: Surface,
    banks: Option<Seq<BankState>>,
)
    requires
        a.x < b.x,
    ensures
        ({
            let f = span_fragment(r, a, b, x, surface, banks);
            &&& f.attr == a.attr
            &&& f.poly_id == a.poly_id
            &&& f.source == Source::Fill
            &&& x * 256 <= a.x ==> f.depth == depth_value(a.depth as int, a.w as int, r.w_buffering)
            &&& x * 256 >= b.x ==> f.depth == depth_value(b.depth as int, b.w as int, r.w_buffering)
            &&& banks is None || r.disp3dcnt % 2 == 0 || surface.tex.format == 0 ==> {
                &&& surface.mode != 2 && x * 256 <= a.x ==> f.color == color_between(a, b, 0)
                &&& surface.mode != 2 && x * 256 >= b.x ==> f.color == color_between(a, b, 65536)
                &&& surface.mode == 0 && a.alpha <= 31 ==> f.alpha == a.alpha
            }
        }),
{
    law_span_ratio(a, b, x);
    law_lerp_between(a.depth as int, b.depth as int, 0);
    law_lerp_between(a.w as int, b.w as int, 0);
    law_lerp_between(a.depth as int, b.depth as int, 65536);
    law_lerp_between(a.w as int, b.w as int, 65536);
    if a.alpha <= 31 {
        law_fragment_alpha(31, a.alpha);
    }
}

/// A point on an edge has everything from its upper end at ratio 0, and at ratio 1 all
/// that is interpolated from its lower end.
pub proof fn law_edge_ends(a: Vert, b: Vert)
    ensures
        lerp_verts(a, b, 0) == a,
        lerp_verts(a, b, 65536) == (Vert {
            y: a.y,
            attr: a.attr,
            poly_id: a.poly_id,
            alpha: a.alpha,
            ..b
        }),
{
    law_lerp_between(a.x as int, b.x as int, 0);
    law_lerp_between(a.depth as int, b.depth as int, 0);
    law_lerp_between(a.w as int, b.w as int, 0);
    law_lerp_between(a.inv_w as int, b.inv_w as int, 0);
    law_lerp_between(a.r_over_w as int, b.r_over_w as int, 0);
    law_lerp_between(a.g_over_w as int, b.g_over_w as int, 0);
    law_lerp_between(a.b_over_w as int, b.b_over_w as int, 0);
    law_lerp_between(a.s_over_w as int, b.s_over_w as int, 0);
    law_lerp_between(a.t_over_w as int, b.t_over_w as int, 0);
    law_lerp_between(a.x as int, b.x as int, 65536);
    law_lerp_between(a.depth as int, b.depth as int, 65536);
    law_lerp_between(a.w as int, b.w as int, 65536);
    law_lerp_between(a.inv_w as int, b.inv_w as int, 65536);
    law_lerp_between(a.r_over_w as int, b.r_over_w as int, 65536);
    law_lerp_between(a.g_over_w as int, b.g_over_w as int, 65536);
    law_lerp_between(a.b_over_w as int, b.b_over_w as int, 65536);
    law_lerp_between(a.s_over_w as int, b.s_over_w as int, 65536);
    law_lerp_between(a.t_over_w as int, b.t_over_w as int, 65536);
}

/// A value `t / 65536` of the way between two others, up to the rounding.
pub proof fn law_lerp_is_linear(a: int, b: int, t: int)
    requires
        0 <= t <= 65536,
    ensures
        -65536 < a * (65536 - t) + b * t - 65536 * lerp(a, b, t) < 65536,
{
    lemma_lerp_error(a, b, t);
}

/// A screen vertex enters with its column in 24.8 fixed-point, its whole row, its depth,
/// W and the reciprocal of W, by which color channels and texture coordinates are
/// multiplied, S apart from T.
pub proof fn law_vertex_attributes(v: ScreenVertex, attr: u32, poly_id: u8, alpha: u8)
    requires
        1 <= v.w,
    ensures
        ({
            let r = vert_of(v, attr, poly_id, alpha);
            let inv = 0x400_0000_0000int / v.w as int;
            &&& r.x == v.screen_x
            &&& r.y == v.screen_y as int / 256
            &&& r.depth == v.depth_z
            &&& r.w == v.w
            &&& r.inv_w == inv
            &&& r.r_over_w == v.color as int % 32 * inv
            &&& r.g_over_w == v.color as int / 32 % 32 * inv
            &&& r.b_over_w == v.color as int / 1024 % 32 * inv
            &&& r.s_over_w == v.tex[0] * inv / 16
            &&& r.t_over_w == v.tex[1] * inv / 16
            &&& r.attr == attr && r.poly_id == poly_id && r.alpha == alpha
        }),
{
    let inv = reciprocal(v.w);
    lemma_reciprocal_positive(v.w);
    lemma_channel_over_w(bgr555::red(v.color), inv);
    lemma_channel_over_w(bgr555::green(v.color), inv);
    lemma_channel_over_w(bgr555::blue(v.color), inv);
    lemma_tex_over_w(v.tex[0] as int, inv);
    lemma_tex_over_w(v.tex[1] as int, inv);
}

proof fn lemma_span_is_local(
    r: RasterState,
    s: RasterState,
    y: int,
    a: Vert,
    b: Vert,
    surface: Surface,
    banks: Option<Seq<BankState>>,
    left: int,
    right: int,
    x: int,
)
    requires
        r.wf(),
        s.wf(),
        r.same_registers(s),
        0 <= y < 192,
        a.poly_id < 64,
        0 <= left,
        right <= 256,
        0 <= x < 256,
        same_picture(r, s, y * 256 + x),
    ensures
        same_picture(
            span_drawn(r, y, a, b, surface, banks, left, right),
            span_drawn(s, y, a, b, surface, banks, left, right),
            y * 256 + x,
        ),
{
    let at = y * 256 + x;
    lemma_span_keeps_shape(r, y, a, b, surface, banks, left, right);
    lemma_span_keeps_shape(s, y, a, b, surface, banks, left, right);
    if left <= x < right {
        law_span_draws_each_column(r, y, a, b, surface, banks, left, right, x);
        law_span_draws_each_column(s, y, a, b, surface, banks, left, right, x);
        lemma_same_fragment(r, s, a, b, x, surface, banks);
        lemma_plot_is_local(r, s, x, y, span_fragment(r, a, b, x, surface, banks));
    } else {
        assert(same_pixel(span_drawn(r, y, a, b, surface, banks, left, right), r, at));
        assert(same_pixel(span_drawn(s, y, a, b, surface, banks, left, right), s, at));
    }
}

proof fn lemma_scanline_frame(
    r: RasterState,
    y: int,
    p: Vert,
    q: Vert,
    surface: Surface,
    banks: Option<Seq<BankState>>,
)
    requires
        r.wf(),
        0 <= y < 192,
        p.poly_id < 64,
        q.poly_id < 64,
    ensures
        scanline_drawn(r, y, p, q, surface, banks).wf(),
        scanline_drawn(r, y, p, q, surface, banks).same_registers(r),
        forall|i: int|
            0 <= i < FB_PIXELS && i / 256 != y ==> same_pixel(
                scanline_drawn(r, y, p, q, surface, banks),
                r,
                i,
            ),
{
    let a = if p.x > q.x { q } else { p };
    let b = if p.x > q.x { p } else { q };
    let left = span_left(a);
    let right = span_right(b, surface.exclude_lower_right_edges) + 1;
    lemma_span_keeps_shape(r, y, a, b, surface, banks, left, right);
    let s = scanline_drawn(r, y, p, q, surface, banks);
    assert forall|i: int| 0 <= i < FB_PIXELS && i / 256 != y implies same_pixel(s, r, i) by {
        assert(!(y * 256 + left <= i < y * 256 + right));
    }
}

proof fn lemma_rows_frame(
    r: RasterState,
    l0: Vert,
    l1: Vert,
    s0: Vert,
    s1: Vert,
    surface: Surface,
    banks: Option<Seq<BankState>>,
    top: int,
    y: int,
)
    requires
        r.wf(),
        0 <= top,
        y <= 192,
        l0.poly_id < 64,
        s0.poly_id < 64,
    ensures
        ({
            let s = rows_drawn(r, l0, l1, s0, s1, surface, banks, top, y);
            &&& s.wf()
            &&& s.same_registers(r)
            &&& forall|i: int|
                0 <= i < FB_PIXELS && !(top <= i / 256 < y) ==> same_pixel(s, r, i)
        }),
    decreases y - top,
{
    if y > top {
        lemma_rows_frame(r, l0, l1, s0, s1, surface, banks, top, y - 1);
        let before = rows_drawn(r, l0, l1, s0, s1, surface, banks, top, y - 1);
        let p = lerp_verts(s0, s1, row_ratio(s0, s1, y - 1));
        let q = lerp_verts(l0, l1, row_ratio(l0, l1, y - 1));
        lemma_scanline_frame(before, y - 1, p, q, surface, banks);
        let s = scanline_drawn(before, y - 1, p, q, surface, banks);
        assert forall|i: int| 0 <= i < FB_PIXELS && !(top <= i / 256 < y) implies same_pixel(
            s,
            r,
            i,
        ) by {
            assert(same_pixel(before, r, i));
            assert(same_pixel(s, before, i));
        }
    }
}

proof fn lemma_row_of_half(
    r: RasterState,
    l0: Vert,
    l1: Vert,
    s0: Vert,
    s1: Vert,
    surface: Surface,
    banks: Option<Seq<BankState>>,
    top: int,
    bottom: int,
    y: int,
    x: int,
)
    requires
        r.wf(),
        0 <= top <= y < bottom <= 192,
        0 <= x < 256,
        l0.poly_id < 64,
        s0.poly_id < 64,
    ensures
        same_picture(
            rows_drawn(r, l0, l1, s0, s1, surface, banks, top, bottom),
            scanline_drawn(
                r,
                y,
                lerp_verts(s0, s1, row_ratio(s0, s1, y)),
                lerp_verts(l0, l1, row_ratio(l0, l1, y)),
                surface,
                banks,
            ),
            y * 256 + x,
        ),
    decreases bottom,
{
    let at = y * 256 + x;
    let before = rows_drawn(r, l0, l1, s0, s1, surface, banks, top, bottom - 1);
    let p = lerp_verts(s0, s1, row_ratio(s0, s1, bottom - 1));
    let q = lerp_verts(l0, l1, row_ratio(l0, l1, bottom - 1));
    lemma_rows_frame(r, l0, l1, s0, s1, surface, banks, top, bottom - 1);
    lemma_scanline_frame(before, bottom - 1, p, q, surface, banks);
    if y == bottom - 1 {
        assert(same_pixel(before, r, at));
        let a = if p.x > q.x { q } else { p };
        let b = if p.x > q.x { p } else { q };
        lemma_span_is_local(
            before,
            r,
            y,
            a,
            b,
            surface,
            banks,
            span_left(a),
            span_right(b, surface.exclude_lower_right_edges) + 1,
            x,
        );
    } else {
        lemma_row_of_half(r, l0, l1, s0, s1, surface, banks, top, bottom - 1, y, x);
        assert(same_pixel(scanline_drawn(before, bottom - 1, p, q, surface, banks), before, at));
    }
}

/// A triangle `a`, `b`, `c`, from the top down, covers the rows from its top vertex to
/// just above its bottom vertex, and each once: above the middle vertex between the
/// edges to `b` and to `c`, from it on between the edges from `b` and from `a` to `c`.
/// Other rows stay as they are.
pub proof fn law_triangle_rows(
    r: RasterState,
    a: Vert,
    b: Vert,
    c: Vert,
    surface: Surface,
    banks: Option<Seq<BankState>>,
    x: int,
    y: int,
)
    requires
        r.wf(),
        a.y < b.y < c.y,
        a.poly_id < 64,
        b.poly_id < 64,
        c.poly_id < 64,
        0 <= x < 256,
        0 <= y < 192,
    ensures
        ({
            let s = triangle_drawn(r, a, b, c, surface, banks);
            let at = y * 256 + x;
            &&& y < a.y || y >= c.y ==> same_pixel(s, r, at)
            &&& a.y <= y < b.y ==> same_picture(
                s,
                scanline_drawn(
                    r,
                    y,
                    lerp_verts(a, b, row_ratio(a, b, y)),
                    lerp_verts(a, c, row_ratio(a, c, y)),
                    surface,
                    banks,
                ),
                at,
            )
            &&& b.y <= y < c.y ==> same_picture(
                s,
                scanline_drawn(
                    r,
                    y,
                    lerp_verts(b, c, row_ratio(b, c, y)),
                    lerp_verts(a, c, row_ratio(a, c, y)),
                    surface,
                    banks,
                ),
                at,
            )
        }),
{
    let at = y * 256 + x;
    assert(at / 256 == y);
    let t0 = fixed::max(a.y as int, 0);
    let t1 = fixed::min(b.y as int, 192);
    let t2 = fixed::max(b.y as int, 0);
    let t3 = fixed::min(c.y as int, 192);
    let half = half_drawn(r, a, c, a, b, surface, banks);
    let whole = half_drawn(half, a, c, b, c, surface, banks);
    assert(by_row(a, b, c) == (a, b, c));
    lemma_rows_frame(r, a, c, a, b, surface, banks, t0, t1);
    lemma_rows_frame(half, a, c, b, c, surface, banks, t2, t3);
    if a.y <= y < b.y {
        lemma_row_of_half(r, a, c, a, b, surface, banks, t0, t1, y, x);
        assert(same_pixel(whole, half, at));
    } else if b.y <= y < c.y {
        assert(same_pixel(half, r, at));
        let p = lerp_verts(b, c, row_ratio(b, c, y));
        let q = lerp_verts(a, c, row_ratio(a, c, y));
        lemma_row_of_half(half, a, c, b, c, surface, banks, t2, t3, y, x);
        let l = if p.x > q.x { q } else { p };
        let m = if p.x > q.x { p } else { q };
        lemma_span_is_local(
            half,
            r,
            y,
            l,
            m,
            surface,
            banks,
            span_left(l),
            span_right(m, surface.exclude_lower_right_edges) + 1,
            x,
        );
    } else {
        assert(same_pixel(half, r, at));
        assert(same_pixel(whole, half, at));
    }
}

/// The order in which a triangle's vertices come does not matter where they lie in
/// different rows, nor does the order of the two ends of a span in different columns.
pub proof fn law_vertex_order_does_not_matter(
    r: RasterState,
    a: Vert,
    b: Vert,
    c: Vert,
    surface: Surface,
    banks: Option<Seq<BankState>>,
    y: int,
)
    requires
        a.y < b.y < c.y,
        a.x != b.x,
    ensures
        triangle_drawn(r, b, a, c, surface, banks) == triangle_drawn(r, a, b, c, surface, banks),
        triangle_drawn(r, c, b, a, surface, banks) == triangle_drawn(r, a, b, c, surface, banks),
        triangle_drawn(r, b, c, a, surface, banks) == triangle_drawn(r, a, b, c, surface, banks),
        triangle_drawn(r, c, a, b, surface, banks) == triangle_drawn(r, a, b, c, surface, banks),
        triangle_drawn(r, a, c, b, surface, banks) == triangle_drawn(r, a, b, c, surface, banks),
        scanline_drawn(r, y, a, b, surface, banks) == scanline_drawn(r, y, b, a, surface, banks),
{
}

/// A quad is two triangles around its first vertex, and a triangle is one; with alpha 0
/// only the outline is drawn, edge after edge and back to the start.
pub proof fn law_polygon_pieces(
    r: RasterState,
    p: ScreenPolygonState,
    banks: Option<Seq<BankState>>,
)
    requires
        p.vertices.len() == 3 || p.vertices.len() == 4,
        surface_visible(p),
        area_of(p) != 0,
    ensures
        ({
            let n = p.vertices.len();
            let alpha = (p.attr as int / 0x1_0000 % 32) as u8;
            let id = (p.attr as int / 0x100_0000 % 64) as u8;
            let v = |i: int| vert_of(p.vertices[i], p.attr, id, alpha);
            let f = surface_of(p, r);
            let one = triangle_drawn(r, v(0), v(1), v(2), f, banks);
            let w = |s: RasterState, i: int, j: int|
                wire_drawn(s, p.vertices[i], p.vertices[j], p, banks);
            &&& alpha > 0 && n == 3 ==> polygon_drawn(r, p, banks) == one
            &&& alpha > 0 && n == 4 ==> polygon_drawn(r, p, banks) == triangle_drawn(
                one,
                v(0),
                v(2),
                v(3),
                f,
                banks,
            )
            &&& alpha == 0 && n == 3 ==> polygon_drawn(r, p, banks) == w(w(w(r, 0, 1), 1, 2), 2, 0)
            &&& alpha == 0 && n == 4 ==> polygon_drawn(r, p, banks) == w(
                w(w(w(r, 0, 1), 1, 2), 2, 3),
                3,
                0,
            )
        }),
{
    reveal_with_fuel(fan_drawn, 4);
    reveal_with_fuel(wireframe_drawn, 5);
    let f = surface_of(p, r);
    assert(fan_drawn(r, p, f, banks, 1) == r);
    assert(1int % 3 == 1 && 2int % 3 == 2 && 3int % 3 == 0);
    assert(1int % 4 == 1 && 2int % 4 == 2 && 3int % 4 == 3 && 4int % 4 == 0);
}

/// What a surface takes from its polygon: the mode from attribute bits 4 and 5, the
/// texture and the palette. Right edges are left out of opaque polygons where neither
/// edge marking nor anti-aliasing is on, and of translucent ones where blending is off.
pub proof fn law_surface_parts(p: ScreenPolygonState, r: RasterState)
    ensures
        ({
            let s = surface_of(p, r);
            let alpha = p.attr as int / 0x1_0000 % 32;
            let mode = p.attr as int / 16 % 4;
            let format = p.tex_image_param as int / 0x400_0000 % 8;
            let blend = r.disp3dcnt as int / 8 % 2 == 1;
            let smooth = r.disp3dcnt as int / 16 % 2 == 1;
            let mark = r.disp3dcnt as int / 32 % 2 == 1;
            &&& s.mode == mode
            &&& s.tex == texture::params_of(p.tex_image_param)
            &&& s.palette_base == p.palette_base
            &&& alpha == 0 ==> !s.exclude_lower_right_edges
            &&& alpha == 31 && !smooth && !mark ==> s.exclude_lower_right_edges
            &&& 0 < alpha < 31 ==> s.exclude_lower_right_edges == !blend
            &&& alpha == 31 && (smooth || mark) && (mode % 2 == 1 || (format != 1 && format != 6))
                ==> !s.exclude_lower_right_edges
            &&& alpha == 31 && (smooth || mark) && mode % 2 == 0 && (format == 1 || format == 6)
                ==> s.exclude_lower_right_edges == !blend
        }),
{
}

/// A line has at its first pixel the color and depth of the vertex it starts from, at
/// its last pixel those of the other one. Its alpha is that of the polygon, 0 standing
/// for opaque.
pub proof fn law_line_ends(
    r: RasterState,
    a: ScreenVertex,
    b: ScreenVertex,
    attr: u32,
    poly_id: u8,
    surface: Surface,
)
    requires
        surface.mode != 2,
    ensures
        ({
            let s = line_fragment(r, a, b, 0, attr, poly_id, surface, None);
            let e = line_fragment(r, a, b, 65536, attr, poly_id, surface, None);
            let alpha = attr as int / 0x1_0000 % 32;
            &&& s.color == a.color % 0x8000
            &&& e.color == b.color % 0x8000
            &&& s.depth == depth_value(a.depth_z as int, a.w as int, r.w_buffering)
            &&& e.depth == depth_value(b.depth_z as int, b.w as int, r.w_buffering)
            &&& s.alpha == if alpha == 0 { 31 } else { alpha }
            &&& e.alpha == s.alpha
            &&& s.attr == attr && s.poly_id == poly_id && s.source == Source::Line
        }),
{
    law_lerp_between(bgr555::red(a.color), bgr555::red(b.color), 0);
    law_lerp_between(bgr555::green(a.color), bgr555::green(b.color), 0);
    law_lerp_between(bgr555::blue(a.color), bgr555::blue(b.color), 0);
    law_lerp_between(bgr555::red(a.color), bgr555::red(b.color), 65536);
    law_lerp_between(bgr555::green(a.color), bgr555::green(b.color), 65536);
    law_lerp_between(bgr555::blue(a.color), bgr555::blue(b.color), 65536);
    law_lerp_between(a.depth_z as int, b.depth_z as int, 0);
    law_lerp_between(a.w as int, b.w as int, 0);
    law_lerp_between(a.depth_z as int, b.depth_z as int, 65536);
    law_lerp_between(a.w as int, b.w as int, 65536);
    bgr555::law_channels_pack(a.color);
    bgr555::law_channels_pack(b.color);
    let alpha = (attr as int / 0x1_0000 % 32) as u8;
    law_fragment_alpha(31, if alpha == 0 { 31 } else { alpha });
}

/// A line begins in the pixel of its first vertex and takes one pixel to a step.
pub proof fn law_line_starts_at_first_vertex(
    r: RasterState,
    a: ScreenVertex,
    b: ScreenVertex,
    attr: u32,
    poly_id: u8,
    surface: Surface,
    banks: Option<Seq<BankState>>,
)
    requires
        0 <= a.screen_x as int / 256 < 256,
        0 <= a.screen_y as int / 256 < 192,
    ensures
        line_drawn(r, a, b, attr, poly_id, surface, banks, 1) == plotted(
            r,
            a.screen_x as int / 256,
            a.screen_y as int / 256,
            line_fragment(r, a, b, 0, attr, poly_id, surface, banks),
        ),
        segment_of(a, b).x1 == b.screen_x as int / 256,
        segment_of(a, b).y1 == b.screen_y as int / 256,
        segment_of(a, b).steps() == fixed::max(
            fixed::abs(b.screen_x as int / 256 - a.screen_x as int / 256),
            fixed::abs(b.screen_y as int / 256 - a.screen_y as int / 256),
        ),
{
    let n = fixed::max(segment_of(a, b).steps(), 1);
    reveal_with_fuel(line_drawn, 2);
    assert(line_drawn(r, a, b, attr, poly_id, surface, banks, 0) == r);
    assert(0int * 65536 == 0);
    vstd::arithmetic::div_mod::lemma_basic_div(0, n);
}

/// A translucent fragment over a marked pixel leaves the mark where the pixel is at the
/// rim of the screen or beside another polygon, and takes it away inside its polygon.
pub proof fn law_edge_mark_under_translucent(r: RasterState, x: int, y: int, f: Fragment)
    requires
        r.wf(),
        0 < x < 255,
        0 < y < 191,
        f.alpha < 31,
        f.poly_id < 64,
    ensures
        ({
            let at = y * 256 + x;
            let after = stored(r, x, y, f);
            let id = r.id_buffer[at];
            let inner = r.id_buffer[at - 1] == id && r.id_buffer[at + 1] == id && r.id_buffer[at
                - 256] == id && r.id_buffer[at + 256] == id;
            &&& inner ==> after.edge_enable_buffer[at] == 0
            &&& !inner && r.edge_enable_buffer[at] != 0 ==> after.edge_enable_buffer[at]
                == r.edge_enable_buffer[at]
            &&& r.edge_enable_buffer[at] == 0 ==> after.edge_enable_buffer[at] == 0
        }),
{
}

/// Whether texel `u` lies where the mean of the coordinates `x` and `y`, in sixteenths
/// of a texel, with weights `p` and `q`, falls, up to the error of the ratios.
pub open spec fn texel_of_mean(u: int, x: int, p: int, y: int, q: int) -> bool {
    &&& 16 * u * (p + q) <= x * p + y * q + 0x8100_0000
    &&& x * p + y * q <= (16 * u + 16) * (p + q) + 0x8100_0000
}

proof fn lemma_split_product(s: int, i: int, m: int, q: int, r: int)
    requires
        s * i == 16 * q + r,
    ensures
        s * (i * m) == 16 * (q * m) + r * m,
{
    let g = s * i;
    assert(s * (i * m) == g * m) by (nonlinear_arith)
        requires
            g == s * i,
    ;
    assert(g * m == 16 * (q * m) + r * m) by (nonlinear_arith)
        requires
            g == 16 * q + r,
    ;
}

proof fn lemma_coord_bounds(sa: int, sb: int, ia: int, ib: int, t: int)
    requires
        0 <= sa < 0x8000,
        0 <= sb < 0x8000,
        0x800 <= ia,
        0x800 <= ib,
        0 <= t <= 65536,
    ensures
        ({
            let u = texture_coord(
                lerp(sa * ia / 16, sb * ib / 16, t),
                fixed::max(lerp(ia, ib, t), 1),
            );
            texel_of_mean(u, sa, ia * (65536 - t), sb, ib * t)
        }),
{
    let near = ia * (65536 - t);
    let far = ib * t;
    let w = near + far;
    let n = sa * near + sb * far;
    let (a, b) = (sa * ia / 16, sb * ib / 16);
    let i = lerp(ia, ib, t);
    let s = lerp(a, b, t);
    law_lerp_between(ia, ib, t);
    law_lerp_between(a, b, t);
    lemma_lerp_error(ia, ib, t);
    lemma_lerp_error(a, b, t);
    assert(sa * ia >= 0 && sb * ib >= 0) by (nonlinear_arith)
        requires
            sa >= 0,
            sb >= 0,
            ia >= 0,
            ib >= 0,
    ;
    assert(near >= 0x800 * (65536 - t) && far >= 0x800 * t) by (nonlinear_arith)
        requires
            near == ia * (65536 - t),
            far == ib * t,
            ia >= 0x800,
            ib >= 0x800,
            0 <= t <= 65536,
    ;
    // The exact sum, and what is lost of it by dividing the coordinates by 16.
    let x = a * (65536 - t) + b * t;
    let (ra, rb) = (sa * ia - 16 * a, sb * ib - 16 * b);
    assert(0 <= ra < 16 && 0 <= rb < 16);
    lemma_split_product(sa, ia, 65536 - t, a, ra);
    lemma_split_product(sb, ib, t, b, rb);
    assert(n == 16 * x + ra * (65536 - t) + rb * t);
    assert(0 <= ra * (65536 - t) + rb * t <= 15 * 65536) by (nonlinear_arith)
        requires
            0 <= ra <= 15,
            0 <= rb <= 15,
            0 <= t <= 65536,
    ;
    let q = (s * 16) / i;
    vstd::arithmetic::div_mod::lemma_fundamental_div_mod(s * 16, i);
    vstd::arithmetic::div_mod::lemma_mod_bound(s * 16, i);
    let rest = (s * 16) % i;
    assert(q >= 0) by (nonlinear_arith)
        requires
            s * 16 == i * q + rest,
            rest < i,
            s >= 0,
            i > 0,
    ;
    let e = w - 65536 * i;
    assert(q * w == 65536 * (i * q) + q * e) by (nonlinear_arith)
        requires
            e == w - 65536 * i,
    ;
    assert(q * e <= q * 65536 && (q + 1) * e >= -((q + 1) * 65536)) by (nonlinear_arith)
        requires
            -65536 < e < 65536,
            q >= 0,
    ;
    assert((q + 1) * w == 65536 * (i * q) + 65536 * i + (q + 1) * e) by (nonlinear_arith)
        requires
            e == w - 65536 * i,
    ;
    assert(n <= 0x7FFF * w) by (nonlinear_arith)
        requires
            n == sa * near + sb * far,
            w == near + far,
            sa <= 0x7FFF,
            sb <= 0x7FFF,
            near >= 0,
            far >= 0,
    ;
    assert(w >= 0x800_0000);
    assert(q * w <= n + q * 65536 + 0x10_0000 + 15);
    assert(q < 32800) by (nonlinear_arith)
        requires
            q * w <= 0x7FFF * w + q * 65536 + 0x10_0000 + 15,
            w >= 0x800_0000,
            q >= 0,
    ;
    fixed::lemma_wrap_i32_fits(q);
    let u = q / 16;
    assert(16 * u <= q < 16 * u + 16);
    assert((16 * u) * w <= q * w && (q + 1) * w <= (16 * u + 16) * w) by (nonlinear_arith)
        requires
            16 * u <= q,
            q + 1 <= 16 * u + 16,
            w >= 0,
    ;
}

/// Textures are perspective-correct: between two vertices each texture coordinate is the
/// mean of theirs, weighted by how near each is on the screen and by the reciprocal of
/// its W. Stated for coordinates from 0 on.
pub proof fn law_texture_in_perspective(
    a: ScreenVertex,
    b: ScreenVertex,
    t: int,
    attr: u32,
    poly_id: u8,
    alpha: u8,
    surface: Surface,
    banks: Seq<BankState>,
)
    requires
        1 <= a.w,
        1 <= b.w,
        0 <= t <= 65536,
        a.tex[0] >= 0,
        a.tex[1] >= 0,
        b.tex[0] >= 0,
        b.tex[1] >= 0,
    ensures
        ({
            let texel = texel_between(
                vert_of(a, attr, poly_id, alpha),
                vert_of(b, attr, poly_id, alpha),
                t,
                surface,
                banks,
            );
            let near = 0x400_0000_0000int / a.w as int * (65536 - t);
            let far = 0x400_0000_0000int / b.w as int * t;
            exists|u: int, v: int|
                #![trigger texture::texel_at(surface.tex, u, v, surface.palette_base, banks)]
                {
                    &&& texel == texture::texel_at(
                        surface.tex,
                        u,
                        v,
                        surface.palette_base,
                        banks,
                    )
                    &&& texel_of_mean(u, a.tex[0] as int, near, b.tex[0] as int, far)
                    &&& texel_of_mean(v, a.tex[1] as int, near, b.tex[1] as int, far)
                }
        }),
{
    let ia = reciprocal(a.w);
    let ib = reciprocal(b.w);
    lemma_reciprocal_positive(a.w);
    lemma_reciprocal_positive(b.w);
    lemma_tex_over_w(a.tex[0] as int, ia);
    lemma_tex_over_w(a.tex[1] as int, ia);
    lemma_tex_over_w(b.tex[0] as int, ib);
    lemma_tex_over_w(b.tex[1] as int, ib);
    lemma_coord_bounds(a.tex[0] as int, b.tex[0] as int, ia, ib, t);
    lemma_coord_bounds(a.tex[1] as int, b.tex[1] as int, ia, ib, t);
    let va = vert_of(a, attr, poly_id, alpha);
    let vb = vert_of(b, attr, poly_id, alpha);
    let inv = fixed::max(lerp(ia, ib, t), 1);
    let u = texture_coord(lerp(va.s_over_w as int, vb.s_over_w as int, t), inv);
    let v = texture_coord(lerp(va.t_over_w as int, vb.t_over_w as int, t), inv);
    assert(texel_between(va, vb, t, surface, banks) == texture::texel_at(
        surface.tex,
        u,
        v,
        surface.palette_base,
        banks,
    ));
}

} // verus!
