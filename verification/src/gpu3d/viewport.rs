//! Viewport transform and perspective divide.
//!
//! After clipping, each polygon's vertices are in clip space with `w > 0`
//! everywhere. The final step before rasterization:
//!
//! 1. Perspective divide: `x/w, y/w, z/w` give normalized coordinates in
//!    `-1..=1`.
//! 2. Viewport transform: normalized coordinates become screen pixels.
//!
//! The screen vertex carries everything the rasterizer needs: screen `(x, y)`,
//! the original `w` (kept for perspective-correct interpolation), the depth
//! `z`, color and texture coordinates.

use vstd::prelude::*;
use crate::fixed;
use super::matrix::ONE;
use super::vertex::{Polygon, PolygonState, Vertex};

verus! {

/// VIEWPORT command parameter unpacked into rectangle bounds: pixel
/// coordinates, origin top-left.
#[derive(Debug, Clone, Copy)]
pub struct Viewport {
    pub x1: u8,
    pub y1: u8,
    pub x2: u8,
    pub y2: u8,
}

impl Default for Viewport {
    fn default() -> (r: Self)
        ensures
            r == (Viewport { x1: 0, y1: 0, x2: 0, y2: 0 }),
    {
        Viewport { x1: 0, y1: 0, x2: 0, y2: 0 }
    }
}

/// The rectangle of a `VIEWPORT` parameter word: `x1`, `y1`, `x2`, `y2` from
/// the lowest byte up.
pub open spec fn viewport_of(param: u32) -> Viewport {
    Viewport {
        x1: (param as int % 256) as u8,
        y1: (param as int / 0x100 % 256) as u8,
        x2: (param as int / 0x1_0000 % 256) as u8,
        y2: (param as int / 0x100_0000) as u8,
    }
}

impl Viewport {
    pub fn full_screen() -> (r: Self)
        ensures
            r == (Viewport { x1: 0, y1: 0, x2: 255, y2: 191 }),
    {
        Viewport { x1: 0, y1: 0, x2: 255, y2: 191 }
    }

    /// `VIEWPORT` command: `param = (y2 << 24) | (x2 << 16) | (y1 << 8) | x1`.
    /// The stored values are screen-pixel coordinates with y growing downward.
    pub fn from_param(param: u32) -> (r: Self)
        ensures
            r == viewport_of(param),
    {
        Viewport {
            x1: (param % 256) as u8,
            y1: ((param / 0x100) % 256) as u8,
            x2: ((param / 0x1_0000) % 256) as u8,
            y2: (param / 0x100_0000) as u8,
        }
    }

    /// Columns between the outermost pixel centers, at least 1.
    pub open spec fn columns(self) -> int {
        fixed::max(self.x2 - self.x1, 1)
    }

    /// Rows between the outermost pixel centers, at least 1.
    pub open spec fn rows(self) -> int {
        fixed::max(self.y2 - self.y1, 1)
    }

    /// Viewport pixel count (inclusive of both x1 and x2). For the
    /// full-screen viewport (x1=0, x2=255) this is 256.
    pub fn width(&self) -> (r: i32)
        ensures
            r == fixed::max(self.x2 - self.x1 + 1, 1),
    {
        let d: i32 = self.x2 as i32 - self.x1 as i32 + 1;
        if d > 1 {
            d
        } else {
            1
        }
    }

    pub fn height(&self) -> (r: i32)
        ensures
            r == fixed::max(self.y2 - self.y1 + 1, 1),
    {
        let d: i32 = self.y2 as i32 - self.y1 as i32 + 1;
        if d > 1 {
            d
        } else {
            1
        }
    }

    /// Scale span: normalized +1 maps to pixel `x2` (inclusive), -1 to `x1`.
    pub fn span_x(&self) -> (r: i32)
        ensures
            r == self.columns(),
    {
        let d: i32 = self.x2 as i32 - self.x1 as i32;
        if d > 1 {
            d
        } else {
            1
        }
    }

    pub fn span_y(&self) -> (r: i32)
        ensures
            r == self.rows(),
    {
        let d: i32 = self.y2 as i32 - self.y1 as i32;
        if d > 1 {
            d
        } else {
            1
        }
    }
}

/// One vertex in screen space, after the perspective divide.
#[derive(Debug, Clone, Copy)]
pub struct ScreenVertex {
    /// Screen X / Y in 24.8 fixed-point.
    pub screen_x: i32,
    pub screen_y: i32,
    /// Depth (Z/W), 1.19.12 fixed-point in the range `-1..=1`.
    pub depth_z: i32,
    /// Original W, kept for perspective-correct interpolation.
    pub w: i32,
    /// Color (BGR555).
    pub color: u16,
    /// Texture coordinates (S, T) in 1.11.4 fixed-point.
    pub tex: [i16; 2],
}

/// One polygon in screen space.
#[derive(Debug, Clone)]
pub struct ScreenPolygon {
    pub vertices: Vec<ScreenVertex>,
    pub attr: u32,
    pub tex_image_param: u32,
    pub palette_base: u16,
    /// True when a negative signed area is the polygon's front side.
    pub front_area_negative: bool,
}

/// A screen polygon as contracts speak of it.
#[verifier::ext_equal]
pub struct ScreenPolygonState {
    pub vertices: Seq<ScreenVertex>,
    pub attr: u32,
    pub tex_image_param: u32,
    pub palette_base: u16,
    pub front_area_negative: bool,
}

impl View for ScreenPolygon {
    type V = ScreenPolygonState;

    open spec fn view(&self) -> ScreenPolygonState {
        ScreenPolygonState {
            vertices: self.vertices@,
            attr: self.attr,
            tex_image_param: self.tex_image_param,
            palette_base: self.palette_base,
            front_area_negative: self.front_area_negative,
        }
    }
}

/// The normalized 1.19.12 value of clip component `c`: `c / w`, rounded towards
/// zero. A zero `w` divides by the smallest positive value.
pub open spec fn normalized(c: i32, w: i32) -> i32 {
    fixed::wrap_i32(fixed::tdiv(c * 4096, if w == 0 { 1 } else { w as int }))
}

/// The 24.8 pixel coordinate of normalized value `n` on an axis that starts at
/// pixel `first` and spans `span` pixels: -1 lands on `first`, +1 on
/// `first + span`.
pub open spec fn to_pixels(n: int, first: int, span: int) -> i32 {
    fixed::wrap_i32(first * 256 + span * 128 + fixed::tdiv(n * (span * 128), 4096))
}

/// The screen vertex of clip-space vertex `v`. Normalized +Y is up, screen +Y
/// is down.
pub open spec fn on_screen(v: Vertex, vp: Viewport) -> ScreenVertex {
    let w = v.clip[3];
    ScreenVertex {
        screen_x: to_pixels(normalized(v.clip[0], w) as int, vp.x1 as int, vp.columns()),
        screen_y: to_pixels(-(normalized(v.clip[1], w) as int), vp.y1 as int, vp.rows()),
        depth_z: normalized(v.clip[2], w),
        w,
        color: v.color,
        tex: v.tex,
    }
}

/// The screen polygon of clip-space polygon `p`.
pub open spec fn polygon_on_screen(p: PolygonState, vp: Viewport) -> ScreenPolygonState {
    ScreenPolygonState {
        vertices: Seq::new(p.vertices.len(), |i: int| on_screen(p.vertices[i], vp)),
        attr: p.attr,
        tex_image_param: p.tex_image_param,
        palette_base: p.palette_base,
        front_area_negative: p.front_area_negative,
    }
}

fn divide(c: i32, w: i32) -> (r: i32)
    ensures
        r == normalized(c, w),
{
    let w_safe: i64 = if w == 0 {
        1
    } else {
        w as i64
    };
    assert(c * ONE == c * 4096) by (nonlinear_arith);
    let scaled: i64 = c as i64 * ONE as i64;
    fixed::narrow_i32(fixed::div_trunc(scaled, w_safe) as i128)
}

fn scale_to_pixels(n: i64, first: u8, span: i32) -> (r: i32)
    requires
        1 <= span <= 255,
        -0x8000_0000 <= n <= 0x8000_0000,
    ensures
        r == to_pixels(n as int, first as int, span as int),
{
    let half: i64 = span as i64 * 128;
    proof {
        assert(-0x8000_0000 * 32640 <= n * half <= 0x8000_0000 * 32640) by (nonlinear_arith)
            requires
                -0x8000_0000 <= n <= 0x8000_0000,
                0 <= half <= 32640,
        ;
    }
    fixed::narrow_i32((first as i64 * 256 + half + (n * half) / 4096) as i128)
}

/// Apply perspective divide and viewport transform to one clip-space vertex.
pub fn transform_vertex(v: &Vertex, vp: Viewport) -> (r: ScreenVertex)
    ensures
        r == on_screen(*v, vp),
{
    let w: i32 = v.clip[3];
    let ndc_x: i32 = divide(v.clip[0], w);
    let ndc_y: i32 = divide(v.clip[1], w);
    let ndc_z: i32 = divide(v.clip[2], w);
    ScreenVertex {
        screen_x: scale_to_pixels(ndc_x as i64, vp.x1, vp.span_x()),
        screen_y: scale_to_pixels(-(ndc_y as i64), vp.y1, vp.span_y()),
        depth_z: ndc_z,
        w,
        color: v.color,
        tex: v.tex,
    }
}

/// Transform every vertex of a clipped polygon to screen space.
pub fn transform_polygon(p: &Polygon, vp: Viewport) -> (r: ScreenPolygon)
    ensures
        r@ == polygon_on_screen(p@, vp),
{
    let mut vertices: Vec<ScreenVertex> = Vec::with_capacity(p.vertices.len());
    for i in 0..p.vertices.len()
        invariant
            vertices@ == Seq::new(i as nat, |k: int| on_screen(p.vertices@[k], vp)),
    {
        vertices.push(transform_vertex(&p.vertices[i], vp));
        assert(vertices@ =~= Seq::new((i + 1) as nat, |k: int| on_screen(p.vertices@[k], vp)));
    }
    ScreenPolygon {
        vertices,
        attr: p.attr,
        tex_image_param: p.tex_image_param,
        palette_base: p.palette_base,
        front_area_negative: p.front_area_negative,
    }
}

/// A component within the view volume normalizes to within -1..=1, and the
/// bounds of the volume to exactly -1 and +1.
pub proof fn law_normalized_in_volume(c: i32, w: i32)
    requires
        w > 0,
        -w <= c <= w,
    ensures
        -4096 <= normalized(c, w) <= 4096,
        c == w ==> normalized(c, w) == 4096,
        c == -w ==> normalized(c, w) == -4096,
        c == 0 ==> normalized(c, w) == 0,
{
    let q = fixed::tdiv(c * 4096, w as int);
    assert(-(4096 * w) <= c * 4096 <= 4096 * w);
    fixed::lemma_tdiv_bound(c * 4096, w as int, 4096);
    fixed::lemma_wrap_i32_fits(q);
    assert((w * 4096) / (w as int) == 4096) by (nonlinear_arith)
        requires
            w > 0,
    ;
}

/// A vertex inside the view volume lands inside the viewport rectangle: the
/// left and right bounds of the volume on the rectangle's first and last
/// columns, the upper and lower bounds on its first and last rows.
pub proof fn law_volume_maps_to_viewport(v: Vertex, vp: Viewport)
    requires
        v.clip[3] > 0,
        -v.clip[3] <= v.clip[0] <= v.clip[3],
        -v.clip[3] <= v.clip[1] <= v.clip[3],
    ensures
        vp.x1 * 256 <= on_screen(v, vp).screen_x <= (vp.x1 + vp.columns()) * 256,
        vp.y1 * 256 <= on_screen(v, vp).screen_y <= (vp.y1 + vp.rows()) * 256,
        v.clip[0] == -v.clip[3] ==> on_screen(v, vp).screen_x == vp.x1 * 256,
        v.clip[0] == v.clip[3] ==> on_screen(v, vp).screen_x == (vp.x1 + vp.columns()) * 256,
        v.clip[1] == v.clip[3] ==> on_screen(v, vp).screen_y == vp.y1 * 256,
        v.clip[1] == -v.clip[3] ==> on_screen(v, vp).screen_y == (vp.y1 + vp.rows()) * 256,
{
    let w = v.clip[3];
    law_normalized_in_volume(v.clip[0], w);
    law_normalized_in_volume(v.clip[1], w);
    lemma_pixels_in_span(normalized(v.clip[0], w) as int, vp.x1 as int, vp.columns());
    lemma_pixels_in_span(-(normalized(v.clip[1], w) as int), vp.y1 as int, vp.rows());
}

proof fn lemma_pixels_in_span(n: int, first: int, span: int)
    requires
        -4096 <= n <= 4096,
        0 <= first <= 255,
        1 <= span <= 255,
    ensures
        first * 256 <= to_pixels(n, first, span) <= (first + span) * 256,
        n == -4096 ==> to_pixels(n, first, span) == first * 256,
        n == 4096 ==> to_pixels(n, first, span) == (first + span) * 256,
{
    let half = span * 128;
    assert(-(half * 4096) <= n * half <= half * 4096) by (nonlinear_arith)
        requires
            -4096 <= n <= 4096,
            0 <= half,
    ;
    fixed::lemma_tdiv_bound(n * half, 4096, half);
    assert(n == -4096 ==> n * half == -(4096 * half)) by (nonlinear_arith);
    assert(n == 4096 ==> n * half == 4096 * half);
    fixed::lemma_wrap_i32_fits(first * 256 + half + fixed::tdiv(n * half, 4096));
}

/// A viewport word holds left, lower, right and upper bound, lowest byte first.
pub proof fn law_viewport_fields(x1: u8, y1: u8, x2: u8, y2: u8)
    ensures
        viewport_of((x1 + 0x100 * y1 + 0x1_0000 * x2 + 0x100_0000 * y2) as u32) == (Viewport {
            x1,
            y1,
            x2,
            y2,
        }),
{
    let w = x1 + 0x100 * y1 + 0x1_0000 * x2 + 0x100_0000 * y2;
    assert(w / 0x100 == y1 + 0x100 * x2 + 0x1_0000 * y2);
    assert(w / 0x1_0000 == x2 + 0x100 * y2);
    assert(w / 0x100_0000 == y2);
}

/// On its way to the screen a vertex keeps color, texture coordinates and W; its depth
/// is Z over W; its column follows X alone and its row Y alone.
pub proof fn law_screen_vertex_parts(v: Vertex, other: Vertex, vp: Viewport)
    requires
        other.clip[3] == v.clip[3],
        v.clip[3] > 0,
        -v.clip[3] <= v.clip[2] <= v.clip[3],
    ensures
        ({
            let s = on_screen(v, vp);
            let o = on_screen(other, vp);
            &&& s.color == v.color
            &&& s.tex == v.tex
            &&& s.w == v.clip[3]
            &&& other.clip[0] == v.clip[0] ==> o.screen_x == s.screen_x
            &&& other.clip[1] == v.clip[1] ==> o.screen_y == s.screen_y
            &&& other.clip[2] == v.clip[2] ==> o.depth_z == s.depth_z
            &&& v.clip[2] >= 0 ==> 0 <= v.clip[2] * 4096 - s.depth_z * v.clip[3] < v.clip[3]
            &&& v.clip[2] <= 0 ==> 0 <= s.depth_z * v.clip[3] - v.clip[2] * 4096 < v.clip[3]
        }),
{
    let z = v.clip[2] as int;
    let w = v.clip[3] as int;
    law_normalized_in_volume(v.clip[2], v.clip[3]);
    lemma_quotient(z, w);
}

proof fn lemma_quotient(c: int, w: int)
    requires
        w > 0,
        -w <= c <= w,
        w <= 0x7FFF_FFFF,
    ensures
        ({
            let n = normalized(c as i32, w as i32) as int;
            &&& c >= 0 ==> 0 <= c * 4096 - n * w < w
            &&& c <= 0 ==> 0 <= n * w - c * 4096 < w
        }),
{
    let q = fixed::tdiv(c * 4096, w);
    fixed::lemma_tdiv_bound(c * 4096, w, 4096);
    fixed::lemma_wrap_i32_fits(q);
    let m = fixed::abs(c) * 4096;
    vstd::arithmetic::div_mod::lemma_fundamental_div_mod(m, w);
    vstd::arithmetic::div_mod::lemma_mod_bound(m, w);
    let k = m / w;
    assert(q * w == if c >= 0 { w * k } else { -(w * k) }) by (nonlinear_arith)
        requires
            q == if c >= 0 { k } else { -k },
    ;
}

/// Farther right in clip space is never farther left on the screen, and higher never
/// lower.
pub proof fn law_screen_keeps_order(n: int, m: int, first: int, span: int)
    requires
        -4096 <= n <= m <= 4096,
        0 <= first <= 255,
        1 <= span <= 255,
    ensures
        to_pixels(n, first, span) <= to_pixels(m, first, span),
        n == 0 ==> to_pixels(n, first, span) == first * 256 + span * 128,
        -4096 < (to_pixels(n, first, span) - first * 256 - span * 128) * 4096 - n * (span * 128)
            < 4096,
{
    let half = span * 128;
    lemma_pixels_in_span(n, first, span);
    lemma_pixels_in_span(m, first, span);
    assert(n * half <= m * half) by (nonlinear_arith)
        requires
            n <= m,
            half >= 0,
    ;
    fixed::lemma_tdiv_monotone(n * half, m * half, 4096);
    assert(-(half * 4096) <= n * half <= half * 4096 && -(half * 4096) <= m * half <= half * 4096)
        by (nonlinear_arith)
        requires
            -4096 <= n <= 4096,
            -4096 <= m <= 4096,
            0 <= half,
    ;
    fixed::lemma_tdiv_bound(n * half, 4096, half);
    fixed::lemma_tdiv_bound(m * half, 4096, half);
    fixed::lemma_wrap_i32_fits(first * 256 + half + fixed::tdiv(n * half, 4096));
    fixed::lemma_wrap_i32_fits(first * 256 + half + fixed::tdiv(m * half, 4096));
    if n == 0 {
        assert(n * half == 0) by (nonlinear_arith)
            requires
                n == 0,
        ;
    }
}

} // verus!
