//! Post-rasterization passes.
//!
//! Each pass runs over the framebuffer and the auxiliary buffers, gated by its
//! own `DISP3DCNT` bit, in the order fog, edge marking, anti-aliasing. The order
//! matters for edge marking: edge colors replace polygon colors after fog has
//! been applied to polygon pixels. Toon and highlight shading happen per
//! fragment, in the rasterizer.
//!
//! Anti-aliasing softens the silhouettes of opaque polygons. It uses coverage
//! and edge direction hints where a pixel carries them. Drawing itself records
//! none; without them the pass blends by the neighbours alone.

use vstd::prelude::*;
use crate::bgr555;
use crate::fixed;
use super::triangle;
use super::{
    RasterState, Rasterizer, AA_EDGE_DOWN, AA_EDGE_LEFT, AA_EDGE_RIGHT, AA_EDGE_UP, DEPTH_MAX, FB_PIXELS,
};

verus! {

/// The density that a fog table entry stands for: 127 counts as 128.
pub open spec fn density_of(entry: u8) -> int {
    if entry % 128 == 127 { 128 } else { entry as int % 128 }
}

/// A depth in fog units: 15 bits.
pub open spec fn fog_units(depth: int) -> int {
    fixed::min(fixed::max(depth, 0) / 512, 0x7FFF)
}

/// The distance between fog table boundaries, `0x400 >> shift`; 0 for shifts
/// beyond 10.
pub open spec fn fog_step(shift: int) -> int {
    if shift == 0 {
        1024
    } else if shift == 1 {
        512
    } else if shift == 2 {
        256
    } else if shift == 3 {
        128
    } else if shift == 4 {
        64
    } else if shift == 5 {
        32
    } else if shift == 6 {
        16
    } else if shift == 7 {
        8
    } else if shift == 8 {
        4
    } else if shift == 9 {
        2
    } else if shift == 10 {
        1
    } else {
        0
    }
}

/// The fog density at a depth: the table's first entry up to the first
/// boundary, its last entry from the last boundary on, and between two
/// boundaries the interpolation of their entries.
pub open spec fn fog_density(depth: int, offset: u16, shift: int, table: [u8; 32]) -> int {
    let at = fog_units(depth);
    let start = offset as int % 0x8000;
    let step = fog_step(shift);
    if step == 0 {
        density_of(if at <= start { table[0] } else { table[31] })
    } else if at <= start + step {
        density_of(table[0])
    } else if at >= start + step * 32 {
        density_of(table[31])
    } else {
        let past = at - (start + step);
        let d0 = density_of(table[past / step]);
        let d1 = density_of(table[past / step + 1]);
        d0 + fixed::tdiv((d1 - d0) * (past % step), step)
    }
}

/// Up to the first boundary fog blends alpha towards 31 instead of the fog
/// alpha.
pub open spec fn fog_alpha_full(depth: int, offset: u16, shift: int) -> bool {
    fog_units(depth) <= offset as int % 0x8000 + fog_step(shift)
}

/// One level blended towards the fog by `density / 128`.
pub open spec fn fog_mix(level: int, fog: int, density: int) -> int {
    (level * (128 - density) + fog * density) / 128
}

/// Whether fog applies to pixel `i`.
pub open spec fn fog_applies(r: RasterState, i: int) -> bool {
    bgr555::written(r.framebuffer[i]) && r.fog_enable_buffer[i] != 0
}

/// The fog density at pixel `i`.
pub open spec fn pixel_density(r: RasterState, i: int) -> int {
    fog_density(
        r.depth_buffer[i] as int,
        r.fog_offset,
        r.disp3dcnt as int / 256 % 16,
        r.fog_table,
    )
}

/// The alpha of pixel `i` after fog.
pub open spec fn fogged_alpha(r: RasterState, i: int) -> u8 {
    let target = if fog_alpha_full(
        r.depth_buffer[i] as int,
        r.fog_offset,
        r.disp3dcnt as int / 256 % 16,
    ) {
        31
    } else {
        r.fog_color as int / 0x1_0000 % 32
    };
    if fog_applies(r, i) {
        fixed::min(fog_mix(r.alpha_buffer[i] as int, target, pixel_density(r, i)), 31) as u8
    } else {
        r.alpha_buffer[i]
    }
}

/// Pixel `i` after fog: its color blended towards the fog color unless fog is
/// alpha-only, its mark cleared where its alpha fades to 0.
pub open spec fn fogged_pixel(r: RasterState, i: int) -> u16 {
    let pixel = r.framebuffer[i];
    let fog = (r.fog_color as int % 0x8000) as u16;
    let d = pixel_density(r, i);
    let color = if r.control(0x40) {
        bgr555::rgb(pixel)
    } else {
        bgr555::pack(
            fog_mix(bgr555::red(pixel), bgr555::red(fog), d),
            fog_mix(bgr555::green(pixel), bgr555::green(fog), d),
            fog_mix(bgr555::blue(pixel), bgr555::blue(fog), d),
        )
    };
    if !fog_applies(r, i) {
        pixel
    } else if fogged_alpha(r, i) == 0 {
        color
    } else {
        bgr555::mark(color)
    }
}

/// The state after the fog pass.
pub open spec fn fogged(r: RasterState) -> RasterState {
    RasterState {
        framebuffer: Seq::new(FB_PIXELS as nat, |i: int| fogged_pixel(r, i)),
        alpha_buffer: Seq::new(FB_PIXELS as nat, |i: int| fogged_alpha(r, i)),
        ..r
    }
}

/// Whether a pixel can be changed by edge marking and anti-aliasing.
pub open spec fn edge_candidate(r: RasterState, i: int) -> bool {
    bgr555::written(r.framebuffer[i]) && r.edge_enable_buffer[i] != 0
}

/// Whether position `(x, y)` lies on the screen.
pub open spec fn on_screen(x: int, y: int) -> bool {
    0 <= x < 256 && 0 <= y < 192
}

/// Whether pixel `i` stands out against the neighbor at `(x, y)`: that one
/// belongs to another polygon and is farther away. Beyond the screen lies the
/// rear plane, infinitely far.
pub open spec fn stands_out(r: RasterState, i: int, x: int, y: int) -> bool {
    if on_screen(x, y) {
        r.id_buffer[y * 256 + x] != r.id_buffer[i] && r.depth_buffer[i] < r.depth_buffer[y * 256
            + x]
    } else {
        r.id_buffer[i] != super::rear_id(r.clear_color) && r.depth_buffer[i] < DEPTH_MAX
    }
}

/// Pixel `i` after edge marking.
pub open spec fn edge_marked_pixel(r: RasterState, i: int) -> u16 {
    let x = i % 256;
    let y = i / 256;
    if edge_candidate(r, i) && (stands_out(r, i, x - 1, y) || stands_out(r, i, x + 1, y)
        || stands_out(r, i, x, y - 1) || stands_out(r, i, x, y + 1)) {
        bgr555::mark(r.edge_color[r.id_buffer[i] as int / 8])
    } else {
        r.framebuffer[i]
    }
}

/// The state after the edge-marking pass.
pub open spec fn edge_marked(r: RasterState) -> RasterState {
    RasterState {
        framebuffer: Seq::new(FB_PIXELS as nat, |i: int| edge_marked_pixel(r, i)),
        ..r
    }
}

/// What lies across the edge between pixel `i` and position `(x, y)`, if pixel
/// `i` stands out there: a color, and whether it is visible and thus blends.
pub open spec fn across(r: RasterState, i: int, x: int, y: int) -> Option<(u16, bool)> {
    let n = y * 256 + x;
    if !stands_out(r, i, x, y) {
        None
    } else if !on_screen(x, y) {
        Some((bgr555::rgb(r.rear_color_buffer[i]), bgr555::written(r.rear_color_buffer[i])))
    } else if bgr555::written(r.framebuffer[n]) {
        Some((bgr555::rgb(r.framebuffer[n]), true))
    } else {
        Some((bgr555::rgb(r.rear_color_buffer[n]), bgr555::written(r.rear_color_buffer[n])))
    }
}

/// The first of two options that holds a value.
pub open spec fn or<T>(first: Option<T>, second: Option<T>) -> Option<T> {
    if first is Some { first } else { second }
}

/// An option that counts only under a condition.
pub open spec fn given<T>(condition: bool, value: Option<T>) -> Option<T> {
    if condition { value } else { None }
}

/// What pixel `i` is blended towards: the first hinted direction in which it
/// stands out, else the first of left, right, up and down.
pub open spec fn blend_target(r: RasterState, i: int) -> Option<(u16, bool)> {
    let x = i % 256;
    let y = i / 256;
    let hints = r.aa_edge_hint_buffer[i] as int;
    let left = across(r, i, x - 1, y);
    let right = across(r, i, x + 1, y);
    let up = across(r, i, x, y - 1);
    let down = across(r, i, x, y + 1);
    let hinted = or(
        given(fixed::bit(hints, AA_EDGE_LEFT as int), left),
        or(
            given(fixed::bit(hints, AA_EDGE_RIGHT as int), right),
            or(given(fixed::bit(hints, AA_EDGE_UP as int), up), given(fixed::bit(hints, AA_EDGE_DOWN as int), down)),
        ),
    );
    or(hinted, or(left, or(right, or(up, down))))
}

/// The coverage of pixel `i`: 16 where none is recorded.
pub open spec fn coverage(r: RasterState, i: int) -> int {
    if r.aa_coverage_buffer[i] == 0 {
        16
    } else {
        fixed::min(r.aa_coverage_buffer[i] as int, 31)
    }
}

/// Color and alpha of pixel `i` after anti-aliasing. Pixels of zero-size
/// polygons are hidden, with edge marking only where they are no edge.
pub open spec fn smoothed_pixel(r: RasterState, i: int) -> (u16, u8) {
    let pixel = r.framebuffer[i];
    let dot = r.zero_dot_buffer[i] != 0;
    if !edge_candidate(r, i) {
        (pixel, r.alpha_buffer[i])
    } else if dot && !r.control(0x20) {
        (bgr555::rgb(pixel), 0u8)
    } else {
        match blend_target(r, i) {
            Some((color, blends)) => (
                if blends {
                    bgr555::mark(triangle::blended(bgr555::rgb(pixel), color, coverage(r, i)))
                } else {
                    pixel
                },
                coverage(r, i) as u8,
            ),
            None => if dot {
                (bgr555::rgb(pixel), 0u8)
            } else {
                (pixel, r.alpha_buffer[i])
            },
        }
    }
}

/// The state after the anti-aliasing pass.
pub open spec fn smoothed(r: RasterState) -> RasterState {
    RasterState {
        framebuffer: Seq::new(FB_PIXELS as nat, |i: int| smoothed_pixel(r, i).0),
        alpha_buffer: Seq::new(FB_PIXELS as nat, |i: int| smoothed_pixel(r, i).1),
        ..r
    }
}

/// The state after every enabled pass.
pub open spec fn applied(r: RasterState) -> RasterState {
    let a = if r.control(0x80) { fogged(r) } else { r };
    let b = if r.control(0x20) { edge_marked(a) } else { a };
    if r.control(0x10) && !r.debug_disable_antialiasing { smoothed(b) } else { b }
}

/// Pixels that no polygon wrote and pixels outside fog and edges come out of
/// the passes as they were.
pub proof fn law_passes_keep_other_pixels(r: RasterState, i: int)
    requires
        r.wf(),
        0 <= i < FB_PIXELS,
    ensures
        !fog_applies(r, i) ==> fogged(r).framebuffer[i] == r.framebuffer[i] && fogged(
            r,
        ).alpha_buffer[i] == r.alpha_buffer[i],
        !edge_candidate(r, i) ==> edge_marked(r).framebuffer[i] == r.framebuffer[i],
        !edge_candidate(r, i) ==> smoothed(r).framebuffer[i] == r.framebuffer[i] && smoothed(
            r,
        ).alpha_buffer[i] == r.alpha_buffer[i],
        !bgr555::written(r.framebuffer[i]) ==> applied(r).framebuffer[i] == r.framebuffer[i],
{
}

/// The passes change colors and alphas only: depth, polygon IDs and registers
/// stay, and the buffers keep their shape.
pub proof fn law_passes_keep_geometry(r: RasterState)
    requires
        r.wf(),
    ensures
        applied(r).wf(),
        applied(r).same_registers(r),
        applied(r).depth_buffer == r.depth_buffer,
        applied(r).id_buffer == r.id_buffer,
        applied(r).edge_enable_buffer == r.edge_enable_buffer,
{
}

/// The fog density is at most 128, so that fog never leaves the range between a
/// pixel and the fog color.
pub proof fn law_fog_density_range(depth: int, offset: u16, shift: int, table: [u8; 32])
    requires
        0 <= shift < 16,
    ensures
        0 <= fog_density(depth, offset, shift, table) <= 128,
{
    let at = fog_units(depth);
    let start = offset as int % 0x8000;
    let step = fog_step(shift);
    if step != 0 && at > start + step && at < start + step * 32 {
        let past = at - (start + step);
        let d0 = density_of(table[past / step]);
        let d1 = density_of(table[past / step + 1]);
        lemma_partial_step(d1 - d0, past % step, step);
    }
}

/// A fraction below one of a difference does not exceed it.
proof fn lemma_partial_step(d: int, frac: int, step: int)
    requires
        step > 0,
        0 <= frac < step,
    ensures
        d >= 0 ==> 0 <= fixed::tdiv(d * frac, step) <= d,
        d < 0 ==> d <= fixed::tdiv(d * frac, step) <= 0,
{
    if d >= 0 {
        assert(0 <= d * frac && (d * frac) / step <= d && 0 <= (d * frac) / step)
            by (nonlinear_arith)
            requires
                d >= 0,
                0 <= frac < step,
        ;
    } else {
        assert((-d) * frac == -(d * frac)) by (nonlinear_arith);
        assert(0 <= (-d) * frac && ((-d) * frac) / step <= -d && 0 <= ((-d) * frac) / step)
            by (nonlinear_arith)
            requires
                d < 0,
                0 <= frac < step,
        ;
    }
}

/// Run every enabled post-effect over the framebuffer.
pub fn apply(rast: &mut Rasterizer)
    requires
        old(rast)@.wf(),
    ensures
        final(rast)@.wf(),
        final(rast)@ == applied(old(rast)@),
{
    if fixed::has_bit(rast.disp3dcnt as u32, 0x80) {
        apply_fog(rast);
    }
    if fixed::has_bit(rast.disp3dcnt as u32, 0x20) {
        apply_edge_marking(rast);
    }
    if fixed::has_bit(rast.disp3dcnt as u32, 0x10) && !rast.debug_disable_antialiasing {
        apply_antialiasing(rast);
    }
}

fn neighbor_diff(rast: &Rasterizer, at: usize, x: i64, y: i64) -> (r: bool)
    requires
        rast@.wf(),
        at < FB_PIXELS,
        -1 <= x <= 256,
        -1 <= y <= 192,
    ensures
        r == stands_out(rast@, at as int, x as int, y as int),
{
    let center: u8 = rast.id_buffer[at];
    let center_depth: i32 = rast.depth_buffer[at];
    if x < 0 || x >= 256 || y < 0 || y >= 192 {
        let clear_id: u8 = ((rast.clear_color / 0x100_0000) % 64) as u8;
        return center != clear_id && center_depth < DEPTH_MAX;
    }
    let n: usize = (y * 256 + x) as usize;
    rast.id_buffer[n] != center && center_depth < rast.depth_buffer[n]
}

/// Edge marking: an opaque or wireframe pixel that stands out against one of
/// its four neighbors is tinted with the `EDGE_COLOR` entry of its polygon ID.
fn apply_edge_marking(rast: &mut Rasterizer)
    requires
        old(rast)@.wf(),
    ensures
        final(rast)@.wf(),
        final(rast)@ == edge_marked(old(rast)@),
{
    let ghost start = rast@;
    for i in 0..FB_PIXELS
        invariant
            start.wf(),
            rast@.wf(),
            rast@ == (RasterState {
                framebuffer: Seq::new(
                    FB_PIXELS as nat,
                    |k: int| if k < i { edge_marked_pixel(start, k) } else { start.framebuffer[k] },
                ),
                ..start
            }),
    {
        assert(rast@.framebuffer[i as int] == start.framebuffer[i as int]);
        if rast.framebuffer[i] >= 0x8000 && rast.edge_enable_buffer[i] != 0 {
            let x: i64 = (i % 256) as i64;
            let y: i64 = (i / 256) as i64;
            let is_edge: bool = neighbor_diff(rast, i, x - 1, y) || neighbor_diff(rast, i, x + 1, y)
                || neighbor_diff(rast, i, x, y - 1) || neighbor_diff(rast, i, x, y + 1);
            if is_edge {
                let edge_idx: usize = (rast.id_buffer[i] / 8) as usize;
                rast.framebuffer[i] = bgr555::set_mark(rast.edge_color[edge_idx]);
            }
        }
        assert(rast@ =~= (RasterState {
            framebuffer: Seq::new(
                FB_PIXELS as nat,
                |k: int| if k < i + 1 { edge_marked_pixel(start, k) } else { start.framebuffer[k] },
            ),
            ..start
        }));
    }
    assert(rast@ =~= edge_marked(start));
}

fn mix(level: u32, fog: u32, density: u32) -> (r: u32)
    requires
        level <= 255,
        fog <= 31,
        density <= 128,
    ensures
        r == fog_mix(level as int, fog as int, density as int),
        level <= 31 ==> r <= 31,
{
    proof {
        assert(0 <= level * (128 - density) <= level * 128 && 0 <= fog * density <= 31 * 128)
            by (nonlinear_arith)
            requires
                0 <= level <= 255,
                0 <= fog <= 31,
                0 <= density <= 128,
        ;
        if level <= 31 {
            assert(level * (128 - density) + fog * density <= 31 * 128) by (nonlinear_arith)
                requires
                    0 <= level <= 31,
                    0 <= fog <= 31,
                    0 <= density <= 128,
            ;
        }
    }
    (level * (128 - density) + fog * density) / 128
}

/// Fog: blend each pixel toward `FOG_COLOR` by the density derived from
/// `FOG_OFFSET`, `DISP3DCNT[11:8]`, and `FOG_TABLE`.
fn apply_fog(rast: &mut Rasterizer)
    requires
        old(rast)@.wf(),
    ensures
        final(rast)@.wf(),
        final(rast)@ == fogged(old(rast)@),
{
    let ghost start = rast@;
    for i in 0..FB_PIXELS
        invariant
            start.wf(),
            rast@.wf(),
            rast@ == (RasterState {
                framebuffer: Seq::new(
                    FB_PIXELS as nat,
                    |k: int| if k < i { fogged_pixel(start, k) } else { start.framebuffer[k] },
                ),
                alpha_buffer: Seq::new(
                    FB_PIXELS as nat,
                    |k: int| if k < i { fogged_alpha(start, k) } else { start.alpha_buffer[k] },
                ),
                ..start
            }),
    {
        assert(rast@.framebuffer[i as int] == start.framebuffer[i as int]);
        assert(rast@.alpha_buffer[i as int] == start.alpha_buffer[i as int]);
        if rast.framebuffer[i] >= 0x8000 && rast.fog_enable_buffer[i] != 0 {
            fog_pixel(rast, i);
        }
        assert(rast@ =~= (RasterState {
            framebuffer: Seq::new(
                FB_PIXELS as nat,
                |k: int| if k < i + 1 { fogged_pixel(start, k) } else { start.framebuffer[k] },
            ),
            alpha_buffer: Seq::new(
                FB_PIXELS as nat,
                |k: int| if k < i + 1 { fogged_alpha(start, k) } else { start.alpha_buffer[k] },
            ),
            ..start
        }));
    }
    assert(rast@ =~= fogged(start));
}

/// Fog one pixel to which fog applies.
fn fog_pixel(rast: &mut Rasterizer, i: usize)
    requires
        old(rast)@.wf(),
        i < FB_PIXELS,
        fog_applies(old(rast)@, i as int),
    ensures
        final(rast)@ == (RasterState {
            framebuffer: old(rast)@.framebuffer.update(
                i as int,
                fogged_pixel(old(rast)@, i as int),
            ),
            alpha_buffer: old(rast)@.alpha_buffer.update(
                i as int,
                fogged_alpha(old(rast)@, i as int),
            ),
            ..old(rast)@
        }),
{
    let shift: u32 = ((rast.disp3dcnt / 256) % 16) as u32;
    let depth: i32 = rast.depth_buffer[i];
    let density: u32 = fog_density_for_depth(depth, rast.fog_offset, shift, &rast.fog_table);
    let target: u32 = if fog_alpha_glitch_uses_full_alpha(depth, rast.fog_offset, shift) {
        31
    } else {
        (rast.fog_color / 0x1_0000) % 32
    };
    let mixed_alpha: u32 = mix(rast.alpha_buffer[i] as u32, target, density);
    let alpha: u8 = if mixed_alpha < 31 {
        mixed_alpha as u8
    } else {
        31
    };
    let pixel: u16 = rast.framebuffer[i];
    let color: u16 = if fixed::has_bit(rast.disp3dcnt as u32, 0x40) {
        pixel % 0x8000
    } else {
        let (pr, pg, pb): (u32, u32, u32) = bgr555::channels(pixel);
        let (fr, fg, fb): (u32, u32, u32) = bgr555::channels((rast.fog_color % 0x8000) as u16);
        bgr555::make(mix(pr, fr, density), mix(pg, fg, density), mix(pb, fb, density))
    };
    rast.alpha_buffer[i] = alpha;
    rast.framebuffer[i] = if alpha == 0 {
        color
    } else {
        bgr555::set_mark(color)
    };
}

/// The color across the edge towards `(x, y)`, where pixel `at` stands out.
fn exposed_neighbor(
    rast: &Rasterizer,
    snapshot: &Vec<u16>,
    at: usize,
    x: i64,
    y: i64,
    Ghost(start): Ghost<RasterState>,
) -> (r: Option<(u16, bool)>)
    requires
        rast@.wf(),
        at < FB_PIXELS,
        -1 <= x <= 256,
        -1 <= y <= 192,
        start == (RasterState {
            framebuffer: snapshot@,
            alpha_buffer: start.alpha_buffer,
            ..rast@
        }),
        snapshot@.len() == FB_PIXELS,
    ensures
        r == across(start, at as int, x as int, y as int),
{
    if !neighbor_diff(rast, at, x, y) {
        return None;
    }
    if x < 0 || x >= 256 || y < 0 || y >= 192 {
        let rear: u16 = rast.rear_color_buffer[at];
        return Some((rear % 0x8000, rear >= 0x8000));
    }
    let n: usize = (y * 256 + x) as usize;
    if snapshot[n] >= 0x8000 {
        Some((snapshot[n] % 0x8000, true))
    } else {
        let rear: u16 = rast.rear_color_buffer[n];
        Some((rear % 0x8000, rear >= 0x8000))
    }
}

/// What pixel `at` is blended towards.
fn find_blend_target(
    rast: &Rasterizer,
    snapshot: &Vec<u16>,
    at: usize,
    Ghost(start): Ghost<RasterState>,
) -> (r: Option<(u16, bool)>)
    requires
        rast@.wf(),
        at < FB_PIXELS,
        start == (RasterState {
            framebuffer: snapshot@,
            alpha_buffer: start.alpha_buffer,
            ..rast@
        }),
        snapshot@.len() == FB_PIXELS,
    ensures
        r == blend_target(start, at as int),
{
    let x: i64 = (at % 256) as i64;
    let y: i64 = (at / 256) as i64;
    let hints: u32 = rast.aa_edge_hint_buffer[at] as u32;
    let left: Option<(u16, bool)> = exposed_neighbor(rast, snapshot, at, x - 1, y, Ghost(start));
    let right: Option<(u16, bool)> = exposed_neighbor(rast, snapshot, at, x + 1, y, Ghost(start));
    let up: Option<(u16, bool)> = exposed_neighbor(rast, snapshot, at, x, y - 1, Ghost(start));
    let down: Option<(u16, bool)> = exposed_neighbor(rast, snapshot, at, x, y + 1, Ghost(start));
    if fixed::has_bit(hints, AA_EDGE_LEFT as u32) && left.is_some() {
        return left;
    }
    if fixed::has_bit(hints, AA_EDGE_RIGHT as u32) && right.is_some() {
        return right;
    }
    if fixed::has_bit(hints, AA_EDGE_UP as u32) && up.is_some() {
        return up;
    }
    if fixed::has_bit(hints, AA_EDGE_DOWN as u32) && down.is_some() {
        return down;
    }
    if left.is_some() {
        left
    } else if right.is_some() {
        right
    } else if up.is_some() {
        up
    } else {
        down
    }
}

/// Anti-alias one pixel against a snapshot of the framebuffer.
fn smooth_pixel(
    rast: &mut Rasterizer,
    snapshot: &Vec<u16>,
    i: usize,
    Ghost(start): Ghost<RasterState>,
)
    requires
        old(rast)@.wf(),
        i < FB_PIXELS,
        start.wf(),
        start == (RasterState {
            framebuffer: snapshot@,
            alpha_buffer: start.alpha_buffer,
            ..old(rast)@
        }),
        old(rast)@.framebuffer[i as int] == start.framebuffer[i as int],
        old(rast)@.alpha_buffer[i as int] == start.alpha_buffer[i as int],
    ensures
        final(rast)@ == (RasterState {
            framebuffer: old(rast)@.framebuffer.update(
                i as int,
                smoothed_pixel(start, i as int).0,
            ),
            alpha_buffer: old(rast)@.alpha_buffer.update(
                i as int,
                smoothed_pixel(start, i as int).1,
            ),
            ..old(rast)@
        }),
{
    let ghost before = rast@;
    let pixel: u16 = snapshot[i];
    if pixel >= 0x8000 && rast.edge_enable_buffer[i] != 0 {
        let dot: bool = rast.zero_dot_buffer[i] != 0;
        if dot && !fixed::has_bit(rast.disp3dcnt as u32, 0x20) {
            rast.framebuffer[i] = pixel % 0x8000;
            rast.alpha_buffer[i] = 0;
        } else {
            match find_blend_target(rast, snapshot, i, Ghost(start)) {
                Some((color, blends)) => {
                    let recorded: u8 = rast.aa_coverage_buffer[i];
                    let cover: u8 = if recorded == 0 {
                        16
                    } else if recorded < 31 {
                        recorded
                    } else {
                        31
                    };
                    if blends {
                        rast.framebuffer[i] = bgr555::set_mark(
                            alpha_blend_bgr555(pixel % 0x8000, color, cover),
                        );
                    }
                    rast.alpha_buffer[i] = cover;
                },
                None => {
                    if dot {
                        rast.framebuffer[i] = pixel % 0x8000;
                        rast.alpha_buffer[i] = 0;
                    }
                },
            }
        }
    }
    assert(rast@ =~= (RasterState {
        framebuffer: before.framebuffer.update(i as int, smoothed_pixel(start, i as int).0),
        alpha_buffer: before.alpha_buffer.update(i as int, smoothed_pixel(start, i as int).1),
        ..before
    }));
}

/// Anti-aliasing: soften opaque silhouette pixels toward the color across the
/// exposed edge.
fn apply_antialiasing(rast: &mut Rasterizer)
    requires
        old(rast)@.wf(),
    ensures
        final(rast)@.wf(),
        final(rast)@ == smoothed(old(rast)@),
{
    let ghost start = rast@;
    let snapshot: Vec<u16> = rast.framebuffer.clone();
    assert(snapshot@ =~= start.framebuffer);
    for i in 0..FB_PIXELS
        invariant
            start.wf(),
            rast@.wf(),
            snapshot@ == start.framebuffer,
            rast@ == (RasterState {
                framebuffer: Seq::new(
                    FB_PIXELS as nat,
                    |k: int| if k < i { smoothed_pixel(start, k).0 } else { start.framebuffer[k] },
                ),
                alpha_buffer: Seq::new(
                    FB_PIXELS as nat,
                    |k: int| if k < i { smoothed_pixel(start, k).1 } else { start.alpha_buffer[k] },
                ),
                ..start
            }),
    {
        assert(start =~= (RasterState {
            framebuffer: snapshot@,
            alpha_buffer: start.alpha_buffer,
            ..rast@
        }));
        smooth_pixel(rast, &snapshot, i, Ghost(start));
        assert(rast@ =~= (RasterState {
            framebuffer: Seq::new(
                FB_PIXELS as nat,
                |k: int| if k < i + 1 { smoothed_pixel(start, k).0 } else { start.framebuffer[k] },
            ),
            alpha_buffer: Seq::new(
                FB_PIXELS as nat,
                |k: int| if k < i + 1 { smoothed_pixel(start, k).1 } else { start.alpha_buffer[k] },
            ),
            ..start
        }));
    }
    assert(rast@ =~= smoothed(start));
}

pub fn fog_density_for_blend(value: u8) -> (r: u32)
    ensures
        r == density_of(value),
        r <= 128,
{
    if value % 128 == 127 {
        128
    } else {
        (value % 128) as u32
    }
}

fn step_for_shift(shift: u32) -> (r: i32)
    ensures
        r == fog_step(shift as int),
        0 <= r <= 1024,
{
    match shift {
        0 => 1024,
        1 => 512,
        2 => 256,
        3 => 128,
        4 => 64,
        5 => 32,
        6 => 16,
        7 => 8,
        8 => 4,
        9 => 2,
        10 => 1,
        _ => 0,
    }
}

/// The fog density at a depth.
pub fn fog_density_for_depth(depth: i32, fog_offset: u16, shift: u32, table: &[u8; 32]) -> (r: u32)
    ensures
        r == fog_density(depth as int, fog_offset, shift as int, *table),
        r <= 128,
{
    let depth: i32 = fog_depth_units(depth);
    let offset: i32 = (fog_offset % 0x8000) as i32;
    let step: i32 = step_for_shift(shift);
    if step == 0 {
        return if depth <= offset {
            fog_density_for_blend(table[0])
        } else {
            fog_density_for_blend(table[31])
        };
    }
    let first_boundary: i32 = offset + step;
    let last_boundary: i32 = offset + step * 32;
    if depth <= first_boundary {
        return fog_density_for_blend(table[0]);
    }
    if depth >= last_boundary {
        return fog_density_for_blend(table[31]);
    }
    let relative: i32 = depth - first_boundary;
    proof {
        assert(0 <= (relative as int) / (step as int) <= 30 && 0 <= (relative as int) % (step as int)
            < step) by (nonlinear_arith)
            requires
                0 <= relative < 31 * step,
                step > 0,
        ;
    }
    let idx: usize = (relative / step) as usize;
    let frac: i32 = relative % step;
    let d0: i32 = fog_density_for_blend(table[idx]) as i32;
    let d1: i32 = fog_density_for_blend(table[idx + 1]) as i32;
    proof {
        lemma_partial_step(d1 - d0, frac as int, step as int);
        assert(-128 * 1024 <= (d1 - d0) * frac <= 128 * 1024) by (nonlinear_arith)
            requires
                -128 <= d1 - d0 <= 128,
                0 <= frac < step,
                step <= 1024,
        ;
    }
    (d0 as i64 + fixed::div_trunc((d1 - d0) as i64 * frac as i64, step as i64)) as u32
}

pub fn fog_depth_units(depth: i32) -> (r: i32)
    ensures
        r == fog_units(depth as int),
        0 <= r <= 0x7FFF,
{
    if depth <= 0 {
        return 0;
    }
    let units: i32 = depth / 512;
    if units < 0x7FFF {
        units
    } else {
        0x7FFF
    }
}

pub fn fog_alpha_glitch_uses_full_alpha(depth: i32, fog_offset: u16, shift: u32) -> (r: bool)
    ensures
        r == fog_alpha_full(depth as int, fog_offset, shift as int),
{
    let depth: i32 = fog_depth_units(depth);
    let offset: i32 = (fog_offset % 0x8000) as i32;
    depth <= offset + step_for_shift(shift)
}

/// Alpha blend in BGR555 channel space; `alpha` is the share of `top`.
pub fn alpha_blend_bgr555(top: u16, bottom: u16, alpha: u8) -> (r: u16)
    requires
        alpha <= 31,
    ensures
        r == triangle::blended(top, bottom, alpha as int),
{
    triangle::alpha_blend(top, bottom, alpha)
}

/// The fog boundaries lie 1024 depth units apart, and half as far with every step of
/// the shift.
pub proof fn law_fog_step_halves(shift: int)
    ensures
        fog_step(0) == 1024,
        0 <= shift < 10 ==> fog_step(shift) == 2 * fog_step(shift + 1),
        shift > 10 ==> fog_step(shift) == 0,
{
}

/// At boundary `k` of the fog the density is that of table entry `k`, in 128ths, 127
/// counting as 128. In front of the first boundary it is the first entry's, behind
/// the last boundary the last entry's.
pub proof fn law_fog_at_boundaries(depth: int, offset: u16, shift: int, table: [u8; 32], k: int)
    requires
        0 <= depth < 0x100_0000,
        0 <= shift <= 10,
        0 <= k < 32,
    ensures
        ({
            let at = depth / 512;
            let first = offset as int % 0x8000 + fog_step(shift);
            let entry = table[k] as int % 128;
            let full = if entry == 127 { 128 } else { entry };
            let d = fog_density(depth, offset, shift, table);
            &&& at == first + k * fog_step(shift) ==> d == full
            &&& k == 0 && at <= first ==> d == full
            &&& k == 31 && at >= first + 31 * fog_step(shift) ==> d == full
        }),
{
    let step = fog_step(shift);
    let past = depth / 512 - (offset as int % 0x8000 + step);
    if past == k * step {
        vstd::arithmetic::div_mod::lemma_fundamental_div_mod_converse(past, step, k, 0);
        if 0 < k < 31 {
            let d0 = density_of(table[k]);
            let d1 = density_of(table[k + 1]);
            assert(k * step < 31 * step && k * step > 0) by (nonlinear_arith)
                requires
                    0 < k < 31,
                    step > 0,
            ;
            assert((d1 - d0) * 0 == 0);
            vstd::arithmetic::div_mod::lemma_basic_div(0, step);
        } else if k == 0 {
            assert(k * step == 0) by (nonlinear_arith)
                requires
                    k == 0,
            ;
        }
    }
}

/// Between two boundaries the density runs in proportion from the entry of the one to
/// the entry of the other.
pub proof fn law_fog_between_boundaries(
    depth: int,
    offset: u16,
    shift: int,
    table: [u8; 32],
    k: int,
)
    requires
        0 <= depth < 0x100_0000,
        0 <= shift <= 10,
        0 <= k < 31,
        ({
            let past = depth / 512 - (offset as int % 0x8000 + fog_step(shift));
            k * fog_step(shift) < past < (k + 1) * fog_step(shift)
        }),
    ensures
        ({
            let step = fog_step(shift);
            let way = depth / 512 - (offset as int % 0x8000 + step) - k * step;
            let d0 = density_of(table[k]);
            let d1 = density_of(table[k + 1]);
            let d = fog_density(depth, offset, shift, table);
            &&& -step < d0 * (step - way) + d1 * way - d * step < step
            &&& fixed::min(d0, d1) <= d <= fixed::max(d0, d1)
        }),
{
    let step = fog_step(shift);
    let past = depth / 512 - (offset as int % 0x8000 + step);
    let way = past - k * step;
    assert((k + 1) * step == k * step + step) by (nonlinear_arith);
    assert(0 <= k * step && (k + 1) * step <= 31 * step) by (nonlinear_arith)
        requires
            0 <= k < 31,
            step > 0,
    ;
    vstd::arithmetic::div_mod::lemma_fundamental_div_mod_converse(past, step, k, way);
    let d0 = density_of(table[k]);
    let d1 = density_of(table[k + 1]);
    let e = (d1 - d0) * way;
    assert(d0 * (step - way) + d1 * way == d0 * step + e) by (nonlinear_arith)
        requires
            e == (d1 - d0) * way,
    ;
    let q = fixed::tdiv(e, step);
    lemma_tdiv_error(e, step);
    assert((d0 + q) * step == d0 * step + q * step) by (nonlinear_arith);
    if d1 >= d0 {
        assert(0 <= e <= (d1 - d0) * step) by (nonlinear_arith)
            requires
                e == (d1 - d0) * way,
                0 <= way <= step,
                d1 >= d0,
        ;
        assert(0 <= q <= d1 - d0) by (nonlinear_arith)
            requires
                -step < e - q * step < step,
                e >= q * step || e <= 0,
                0 <= e <= (d1 - d0) * step,
                e >= 0 ==> q >= 0 && q * step <= e,
                step > 0,
        ;
    } else {
        assert((d1 - d0) * step <= e <= 0) by (nonlinear_arith)
            requires
                e == (d1 - d0) * way,
                0 <= way <= step,
                d1 < d0,
        ;
        assert(d1 - d0 <= q <= 0) by (nonlinear_arith)
            requires
                (d1 - d0) * step <= e <= 0,
                e <= 0 ==> q <= 0 && q * step >= e,
                step > 0,
        ;
    }
}

proof fn lemma_tdiv_error(e: int, step: int)
    requires
        step > 0,
    ensures
        -step < e - fixed::tdiv(e, step) * step < step,
        e >= 0 ==> fixed::tdiv(e, step) >= 0 && fixed::tdiv(e, step) * step <= e,
        e <= 0 ==> fixed::tdiv(e, step) <= 0 && fixed::tdiv(e, step) * step >= e,
{
    let m = fixed::abs(e);
    let k = m / step;
    vstd::arithmetic::div_mod::lemma_fundamental_div_mod(m, step);
    vstd::arithmetic::div_mod::lemma_mod_bound(m, step);
    assert(k * step == step * k && (-k) * step == -(step * k)) by (nonlinear_arith);
    assert(k >= 0) by (nonlinear_arith)
        requires
            m == step * k + m % step,
            m % step < step,
            m >= 0,
            step > 0,
    ;
    if e == 0 {
        vstd::arithmetic::div_mod::lemma_basic_div(0, step);
    }
}

/// Whether a level moved `d` 128ths of the way towards the fog's, rounded down.
pub open spec fn fog_of(level: int, before: int, fog: int, d: int) -> bool {
    0 <= before * (128 - d) + fog * d - 128 * level < 128
}

proof fn lemma_fog_of(before: int, fog: int, d: int)
    requires
        0 <= before <= 31,
        0 <= fog <= 31,
        0 <= d <= 128,
    ensures
        fog_of(fog_mix(before, fog, d), before, fog, d),
        0 <= fog_mix(before, fog, d) <= 31,
        d == 0 ==> fog_mix(before, fog, d) == before,
        d == 128 ==> fog_mix(before, fog, d) == fog,
{
    let m = before * (128 - d) + fog * d;
    assert(0 <= m <= 31 * 128) by (nonlinear_arith)
        requires
            m == before * (128 - d) + fog * d,
            0 <= before <= 31,
            0 <= fog <= 31,
            0 <= d <= 128,
    ;
    if d == 0 {
        assert(m == before * 128) by (nonlinear_arith)
            requires
                m == before * (128 - d) + fog * d,
                d == 0,
        ;
    }
    if d == 128 {
        assert(m == fog * 128) by (nonlinear_arith)
            requires
                m == before * (128 - d) + fog * d,
                d == 128,
        ;
    }
}

/// Fog takes the color of a fogged pixel towards the fog color by its density, channel
/// by channel, unless `DISP3DCNT` bit 6 confines it to alpha, which goes towards the
/// fog's; without density nothing changes, with full density only the fog is left.
pub proof fn law_fog_blends(r: RasterState, i: int)
    requires
        r.wf(),
        0 <= i < FB_PIXELS,
        r.framebuffer[i] >= 0x8000,
        r.fog_enable_buffer[i] != 0,
        r.alpha_buffer[i] <= 31,
    ensures
        ({
            let d = pixel_density(r, i);
            let shift = r.disp3dcnt as int / 256 % 16;
            let near = r.depth_buffer[i] as int <= 0 || r.depth_buffer[i] as int / 512
                <= r.fog_offset as int % 0x8000 + fog_step(shift);
            let towards = if near { 31 } else { r.fog_color as int / 0x1_0000 % 32 };
            let fog = r.fog_color as int;
            let old = r.framebuffer[i] as int;
            let new = fogged(r).framebuffer[i] as int;
            let alpha = fogged(r).alpha_buffer[i] as int;
            let only_alpha = r.disp3dcnt as int / 64 % 2 == 1;
            &&& r.depth_buffer[i] / 512 <= 0x7FFF ==> fog_of(
                alpha,
                r.alpha_buffer[i] as int,
                towards,
                d,
            )
            &&& (new >= 0x8000) == (alpha > 0)
            &&& only_alpha ==> new % 0x8000 == old % 0x8000
            &&& !only_alpha ==> fog_of(new % 32, old % 32, fog % 32, d)
            &&& !only_alpha ==> fog_of(new / 32 % 32, old / 32 % 32, fog / 32 % 32, d)
            &&& !only_alpha ==> fog_of(new / 1024 % 32, old / 1024 % 32, fog / 1024 % 32, d)
            &&& d == 0 ==> new % 0x8000 == old % 0x8000 && alpha == r.alpha_buffer[i]
            &&& d == 128 && !only_alpha ==> new % 0x8000 == fog % 0x8000
        }),
{
    let d = pixel_density(r, i);
    let pixel = r.framebuffer[i];
    let fog = (r.fog_color as int % 0x8000) as u16;
    law_fog_density_range(
        r.depth_buffer[i] as int,
        r.fog_offset,
        r.disp3dcnt as int / 256 % 16,
        r.fog_table,
    );
    lemma_fog_of(bgr555::red(pixel), bgr555::red(fog), d);
    lemma_fog_of(bgr555::green(pixel), bgr555::green(fog), d);
    lemma_fog_of(bgr555::blue(pixel), bgr555::blue(fog), d);
    let target = if fog_alpha_full(
        r.depth_buffer[i] as int,
        r.fog_offset,
        r.disp3dcnt as int / 256 % 16,
    ) {
        31
    } else {
        r.fog_color as int / 0x1_0000 % 32
    };
    lemma_fog_of(r.alpha_buffer[i] as int, target, d);
    let c = bgr555::pack(
        fog_mix(bgr555::red(pixel), bgr555::red(fog), d),
        fog_mix(bgr555::green(pixel), bgr555::green(fog), d),
        fog_mix(bgr555::blue(pixel), bgr555::blue(fog), d),
    );
    bgr555::law_pack_channels(
        fog_mix(bgr555::red(pixel), bgr555::red(fog), d),
        fog_mix(bgr555::green(pixel), bgr555::green(fog), d),
        fog_mix(bgr555::blue(pixel), bgr555::blue(fog), d),
    );
    bgr555::law_mark(c);
    bgr555::law_mark(bgr555::rgb(pixel));
    bgr555::law_channels_pack(pixel);
    bgr555::law_channels_pack(fog);
    lemma_low_color(r.fog_color);
}

proof fn lemma_low_color(word: u32)
    ensures
        ({
            let c = (word as int % 0x8000) as u16;
            &&& bgr555::red(c) == word as int % 32
            &&& bgr555::green(c) == word as int / 32 % 32
            &&& bgr555::blue(c) == word as int / 1024 % 32
            &&& bgr555::rgb(c) == word as int % 0x8000
        }),
{
    let x = word as int;
    let m = x % 0x8000;
    let q = x / 0x8000;
    assert(x == m + 0x8000 * q);
    assert(x / 32 == m / 32 + 1024 * q);
    assert(x / 1024 == m / 1024 + 32 * q);
}

/// Whether the neighbor at `(x, y)` lies behind pixel `i` and belongs to another
/// polygon; beyond the screen lies the rear plane.
pub open spec fn behind(r: RasterState, i: int, x: int, y: int) -> bool {
    if 0 <= x < 256 && 0 <= y < 192 {
        r.id_buffer[y * 256 + x] != r.id_buffer[i] && r.depth_buffer[y * 256 + x]
            > r.depth_buffer[i]
    } else {
        r.clear_color as int / 0x100_0000 % 64 != r.id_buffer[i] && 0xFF_FFFF > r.depth_buffer[i]
    }
}

/// Edge marking paints a pixel exactly where it is opaque, was drawn, and has a
/// neighbor of another polygon behind it; the color is that of its group of eight
/// polygon IDs.
pub proof fn law_edges_marked(r: RasterState, x: int, y: int)
    requires
        r.wf(),
        0 <= x < 256,
        0 <= y < 192,
    ensures
        ({
            let i = y * 256 + x;
            let rim = behind(r, i, x - 1, y) || behind(r, i, x + 1, y) || behind(r, i, x, y - 1)
                || behind(r, i, x, y + 1);
            let drawn = r.framebuffer[i] >= 0x8000 && r.edge_enable_buffer[i] != 0;
            edge_marked(r).framebuffer[i] == if drawn && rim {
                (r.edge_color[r.id_buffer[i] as int / 8] % 0x8000 + 0x8000) as u16
            } else {
                r.framebuffer[i]
            }
        }),
{
    let i = y * 256 + x;
    assert(i % 256 == x && i / 256 == y);
    assert(r.id_buffer[i] < 64);
}

/// Anti-aliasing mixes an edge pixel with what lies behind its edge: the pixel's share
/// is its coverage, 16 of 32 where none is known, and the coverage becomes its alpha.
/// Stated for a pixel that has its edge on one side only.
pub proof fn law_smoothing_mixes(r: RasterState, x: int, y: int, dx: int, dy: int)
    requires
        r.wf(),
        0 <= x < 256,
        0 <= y < 192,
        0 <= x + dx < 256,
        0 <= y + dy < 192,
        (dx == 0 && (dy == 1 || dy == -1)) || (dy == 0 && (dx == 1 || dx == -1)),
        r.framebuffer[y * 256 + x] >= 0x8000,
        r.edge_enable_buffer[y * 256 + x] != 0,
        r.zero_dot_buffer[y * 256 + x] == 0,
        behind(r, y * 256 + x, x + dx, y + dy),
        dx != -1 ==> !behind(r, y * 256 + x, x - 1, y),
        dx != 1 ==> !behind(r, y * 256 + x, x + 1, y),
        dy != -1 ==> !behind(r, y * 256 + x, x, y - 1),
        dy != 1 ==> !behind(r, y * 256 + x, x, y + 1),
    ensures
        ({
            let i = y * 256 + x;
            let n = (y + dy) * 256 + x + dx;
            let known = r.aa_coverage_buffer[i] as int;
            let a = if known == 0 {
                16
            } else if known > 31 {
                31
            } else {
                known
            };
            let other = if r.framebuffer[n] >= 0x8000 {
                r.framebuffer[n] as int
            } else {
                r.rear_color_buffer[n] as int
            };
            let old = r.framebuffer[i] as int;
            let new = smoothed(r).framebuffer[i] as int;
            &&& smoothed(r).alpha_buffer[i] == a
            &&& other < 0x8000 ==> new == old
            &&& other >= 0x8000 ==> {
                &&& new >= 0x8000
                &&& triangle::blend_of(new % 32, old % 32, other % 32, a)
                &&& triangle::blend_of(new / 32 % 32, old / 32 % 32, other / 32 % 32, a)
                &&& triangle::blend_of(new / 1024 % 32, old / 1024 % 32, other / 1024 % 32, a)
            }
        }),
{
    let i = y * 256 + x;
    let n = (y + dy) * 256 + x + dx;
    assert(i % 256 == x && i / 256 == y);
    assert(r.id_buffer[i] < 64);
    let here = across(r, i, x + dx, y + dy);
    assert(stands_out(r, i, x + dx, y + dy));
    assert(dx != -1 ==> across(r, i, x - 1, y) is None);
    assert(dx != 1 ==> across(r, i, x + 1, y) is None);
    assert(dy != -1 ==> across(r, i, x, y - 1) is None);
    assert(dy != 1 ==> across(r, i, x, y + 1) is None);
    assert(blend_target(r, i) == here);
    let pixel = bgr555::rgb(r.framebuffer[i]);
    let color = match here {
        Some((color, _)) => color,
        None => 0u16,
    };
    triangle::law_blend_weights(pixel, color, coverage(r, i));
    bgr555::law_mark(triangle::blended(pixel, color, coverage(r, i)));
    lemma_low_color(r.framebuffer[i] as u32);
    lemma_low_color(r.framebuffer[n] as u32);
    lemma_low_color(r.rear_color_buffer[n] as u32);
}

/// Fog comes with `DISP3DCNT` bit 7, edge marking with bit 5, anti-aliasing with bit 4,
/// in this order; without them the picture stays as it is.
pub proof fn law_passes_by_control_bits(r: RasterState)
    ensures
        ({
            let fog = r.disp3dcnt as int / 128 % 2 == 1;
            let mark = r.disp3dcnt as int / 32 % 2 == 1;
            let smooth = r.disp3dcnt as int / 16 % 2 == 1 && !r.debug_disable_antialiasing;
            &&& !fog && !mark && !smooth ==> applied(r) == r
            &&& fog && !mark && !smooth ==> applied(r) == fogged(r)
            &&& !fog && mark && !smooth ==> applied(r) == edge_marked(r)
            &&& !fog && !mark && smooth ==> applied(r) == smoothed(r)
            &&& fog && mark && !smooth ==> applied(r) == edge_marked(fogged(r))
            &&& fog && !mark && smooth ==> applied(r) == smoothed(fogged(r))
            &&& fog && mark && smooth ==> applied(r) == smoothed(edge_marked(fogged(r)))
        }),
{
}

/// A hint names the side to look at first: where a pixel has an edge on the hinted
/// side, that neighbor is mixed in, bit 0 for left, bit 1 right, bit 2 up and bit 3
/// down; without a hint the first of these sides that is an edge.
pub proof fn law_hint_chooses_side(r: RasterState, x: int, y: int)
    requires
        r.wf(),
        0 <= x < 256,
        0 <= y < 192,
    ensures
        ({
            let i = y * 256 + x;
            let hint = r.aa_edge_hint_buffer[i];
            let left = across(r, i, x - 1, y);
            let right = across(r, i, x + 1, y);
            let up = across(r, i, x, y - 1);
            let down = across(r, i, x, y + 1);
            &&& hint == 1 && left is Some ==> blend_target(r, i) == left
            &&& hint == 2 && right is Some ==> blend_target(r, i) == right
            &&& hint == 4 && up is Some ==> blend_target(r, i) == up
            &&& hint == 8 && down is Some ==> blend_target(r, i) == down
            &&& hint == 0 && left is Some ==> blend_target(r, i) == left
            &&& hint == 0 && left is None && right is Some ==> blend_target(r, i) == right
            &&& hint == 0 && left is None && right is None && up is Some ==> blend_target(r, i) == up
            &&& left is None && right is None && up is None ==> blend_target(r, i) == down
        }),
{
    let i = y * 256 + x;
    assert(i % 256 == x && i / 256 == y);
}

/// A dot of zero size is hidden by anti-aliasing, with edge marking only where it is no
/// edge.
pub proof fn law_dots_hidden(r: RasterState, x: int, y: int)
    requires
        r.wf(),
        0 <= x < 256,
        0 <= y < 192,
        r.framebuffer[y * 256 + x] >= 0x8000,
        r.edge_enable_buffer[y * 256 + x] != 0,
        r.zero_dot_buffer[y * 256 + x] != 0,
        r.disp3dcnt as int / 32 % 2 == 0 || blend_target(r, y * 256 + x) is None,
    ensures
        smoothed(r).framebuffer[y * 256 + x] == r.framebuffer[y * 256 + x] - 0x8000,
        smoothed(r).alpha_buffer[y * 256 + x] == 0,
{
}

/// At the left rim of the screen an edge pixel is mixed with the rear plane behind
/// itself; where the rear plane is transparent, it keeps its color.
pub proof fn law_smoothing_at_left_rim(r: RasterState, y: int)
    requires
        r.wf(),
        0 <= y < 192,
        r.framebuffer[y * 256] >= 0x8000,
        r.edge_enable_buffer[y * 256] != 0,
        r.zero_dot_buffer[y * 256] == 0,
        behind(r, y * 256, -1, y),
        !behind(r, y * 256, 1, y),
        !behind(r, y * 256, 0, y - 1),
        !behind(r, y * 256, 0, y + 1),
    ensures
        ({
            let i = y * 256;
            let known = r.aa_coverage_buffer[i] as int;
            let a = if known == 0 {
                16
            } else if known > 31 {
                31
            } else {
                known
            };
            let rear = r.rear_color_buffer[i] as int;
            let old = r.framebuffer[i] as int;
            let new = smoothed(r).framebuffer[i] as int;
            &&& smoothed(r).alpha_buffer[i] == a
            &&& rear < 0x8000 ==> new == old
            &&& rear >= 0x8000 ==> {
                &&& new >= 0x8000
                &&& triangle::blend_of(new % 32, old % 32, rear % 32, a)
                &&& triangle::blend_of(new / 32 % 32, old / 32 % 32, rear / 32 % 32, a)
                &&& triangle::blend_of(new / 1024 % 32, old / 1024 % 32, rear / 1024 % 32, a)
            }
        }),
{
    let i = y * 256;
    assert(i % 256 == 0 && i / 256 == y);
    assert(r.id_buffer[i] < 64);
    let here = across(r, i, -1, y);
    assert(stands_out(r, i, -1, y));
    assert(across(r, i, 1, y) is None);
    assert(across(r, i, 0, y - 1) is None);
    assert(across(r, i, 0, y + 1) is None);
    assert(blend_target(r, i) == here);
    let pixel = bgr555::rgb(r.framebuffer[i]);
    let color = bgr555::rgb(r.rear_color_buffer[i]);
    triangle::law_blend_weights(pixel, color, coverage(r, i));
    bgr555::law_mark(triangle::blended(pixel, color, coverage(r, i)));
    lemma_low_color(r.framebuffer[i] as u32);
    lemma_low_color(r.rear_color_buffer[i] as u32);
}

} // verus!
