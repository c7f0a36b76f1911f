//! 3D rasterizer.
//!
//! The geometry stage ends with a list of screen polygons, flat shapes with
//! per-vertex position, depth, `w`, color and texture coordinates. The
//! rasterizer turns that list into a 256x192 framebuffer: it clears the buffers
//! from the rear plane, draws the opaque polygons and then the translucent ones,
//! and applies the post-effects. The whole frame is rendered at the buffer swap.

pub mod postfx;
pub mod texture;
pub mod triangle;

use vstd::prelude::*;
use crate::fixed;
use crate::vram::{BankState, VramRouter};
use super::viewport::{ScreenPolygon, ScreenPolygonState};

verus! {

/// 3D framebuffer dimensions.
pub const FB_WIDTH: usize = 256;
pub const FB_HEIGHT: usize = 192;
pub const FB_PIXELS: usize = 49152;

pub const AA_EDGE_LEFT: u8 = 1;
pub const AA_EDGE_RIGHT: u8 = 2;
pub const AA_EDGE_UP: u8 = 4;
pub const AA_EDGE_DOWN: u8 = 8;

/// Maximum depth value. Anything at or beyond it is infinitely far.
pub const DEPTH_MAX: i32 = 0x00FF_FFFF;

/// `CLEAR_COLOR` at power-on: a transparent rear plane with polygon ID 63, so that
/// edge marking outlines polygons of ID 0 too.
pub const POWER_ON_CLEAR_COLOR: u32 = 0x3F00_0000;

#[derive(Debug, Clone)]
pub struct Rasterizer {
    /// 256x192 framebuffer in BGR555. Bit 15 = "pixel was written this frame"
    /// (used as the alpha bit by the 2D compositor).
    pub framebuffer: Vec<u16>,
    /// 256x192 5-bit alpha buffer: the alpha with which each pixel was last
    /// written, for fog and for the 2D compositor.
    pub alpha_buffer: Vec<u8>,
    /// 256x192 depth buffer (Z or W). Lower values are closer.
    pub depth_buffer: Vec<i32>,
    /// 256x192 polygon-ID buffer, used by edge marking.
    pub id_buffer: Vec<u8>,
    /// 256x192 edge-mark eligibility flag. Only opaque polygons and wireframes
    /// take part in the edge-marking pass.
    pub edge_enable_buffer: Vec<u8>,
    /// 256x192 last translucent polygon ID. A second translucent write with the
    /// same polygon ID at a pixel is rejected, while translucent pixels over
    /// opaque pixels of the same ID are allowed.
    pub translucent_id_buffer: Vec<u8>,
    /// 256x192 per-pixel fog enable flag, latched from POLYGON_ATTR bit 15.
    pub fog_enable_buffer: Vec<u8>,
    /// 256x192 flag for pixels emitted by the zero-size polygon point path.
    pub zero_dot_buffer: Vec<u8>,
    /// 256x192 rear-plane color snapshot from frame clear.
    pub rear_color_buffer: Vec<u16>,
    /// 256x192 anti-alias coverage hint. Zero means "no coverage available";
    /// the anti-alias pass then uses its conservative silhouette blend. Drawing
    /// records none: the buffer stays as the frame clear leaves it, unless a caller
    /// fills it in.
    pub aa_coverage_buffer: Vec<u8>,
    /// 256x192 anti-alias edge direction hints, a bitmask of `AA_EDGE_*`; zero
    /// means "unknown". Drawing records none.
    pub aa_edge_hint_buffer: Vec<u8>,
    /// 256x192 shadow stencil. Shadow polygons first write a mask with polygon
    /// ID 0, then draw visible shadow polygons against it.
    pub shadow_stencil: Vec<u8>,
    /// `CLEAR_COLOR` register.
    pub clear_color: u32,
    /// `CLEAR_DEPTH` register, 15 bits.
    pub clear_depth: u16,
    /// `CLRIMAGE_OFFSET` register: rear-plane bitmap scroll offsets.
    pub clear_image_offset: u16,
    /// `DISP3DCNT` register:
    /// ```text
    /// [0]  Texture mapping enable
    /// [1]  Highlight mode (vs Toon)
    /// [2]  Alpha-test enable
    /// [3]  Alpha-blend enable
    /// [4]  Anti-alias enable
    /// [5]  Edge-mark enable
    /// [6]  Fog: alpha only (vs alpha + color)
    /// [7]  Fog enable
    /// [11:8] Fog shift (depth to fog-table index)
    /// [14] Rear plane from bitmap
    /// ```
    pub disp3dcnt: u16,
    /// `EDGE_COLOR`: 8 BGR555 entries, indexed by the top 3 bits of the polygon
    /// ID.
    pub edge_color: [u16; 8],
    /// `FOG_COLOR`: BGR555 and alpha.
    pub fog_color: u32,
    /// `FOG_OFFSET`: depth offset before the fog-table lookup.
    pub fog_offset: u16,
    /// `FOG_TABLE`: 32 density values 0..127.
    pub fog_table: [u8; 32],
    /// `TOON_TABLE`: 32 BGR555 values.
    pub toon_table: [u16; 32],
    /// `ALPHA_TEST_REF`: pixels with alpha at most this are discarded when the
    /// alpha test is enabled.
    pub alpha_test_ref: u8,
    /// SWAP_BUFFERS bit 0. When clear, translucent polygons are sorted by Y;
    /// when set, software order is preserved.
    pub manual_translucent_sort: bool,
    /// SWAP_BUFFERS bit 1. When set, depth tests use per-vertex W instead of Z.
    pub w_buffering: bool,
    /// Diagnostic override: skip the final anti-alias pass.
    pub debug_disable_antialiasing: bool,
}

/// The rasterizer as contracts speak of it: the buffers as sequences, beside
/// the registers.
#[verifier::ext_equal]
pub struct RasterState {
    pub framebuffer: Seq<u16>,
    pub alpha_buffer: Seq<u8>,
    pub depth_buffer: Seq<i32>,
    pub id_buffer: Seq<u8>,
    pub edge_enable_buffer: Seq<u8>,
    pub translucent_id_buffer: Seq<u8>,
    pub fog_enable_buffer: Seq<u8>,
    pub zero_dot_buffer: Seq<u8>,
    pub rear_color_buffer: Seq<u16>,
    pub aa_coverage_buffer: Seq<u8>,
    pub aa_edge_hint_buffer: Seq<u8>,
    pub shadow_stencil: Seq<u8>,
    pub clear_color: u32,
    pub clear_depth: u16,
    pub clear_image_offset: u16,
    pub disp3dcnt: u16,
    pub edge_color: [u16; 8],
    pub fog_color: u32,
    pub fog_offset: u16,
    pub fog_table: [u8; 32],
    pub toon_table: [u16; 32],
    pub alpha_test_ref: u8,
    pub manual_translucent_sort: bool,
    pub w_buffering: bool,
    pub debug_disable_antialiasing: bool,
}

impl View for Rasterizer {
    type V = RasterState;

    open spec fn view(&self) -> RasterState {
        RasterState {
            framebuffer: self.framebuffer@,
            alpha_buffer: self.alpha_buffer@,
            depth_buffer: self.depth_buffer@,
            id_buffer: self.id_buffer@,
            edge_enable_buffer: self.edge_enable_buffer@,
            translucent_id_buffer: self.translucent_id_buffer@,
            fog_enable_buffer: self.fog_enable_buffer@,
            zero_dot_buffer: self.zero_dot_buffer@,
            rear_color_buffer: self.rear_color_buffer@,
            aa_coverage_buffer: self.aa_coverage_buffer@,
            aa_edge_hint_buffer: self.aa_edge_hint_buffer@,
            shadow_stencil: self.shadow_stencil@,
            clear_color: self.clear_color,
            clear_depth: self.clear_depth,
            clear_image_offset: self.clear_image_offset,
            disp3dcnt: self.disp3dcnt,
            edge_color: self.edge_color,
            fog_color: self.fog_color,
            fog_offset: self.fog_offset,
            fog_table: self.fog_table,
            toon_table: self.toon_table,
            alpha_test_ref: self.alpha_test_ref,
            manual_translucent_sort: self.manual_translucent_sort,
            w_buffering: self.w_buffering,
            debug_disable_antialiasing: self.debug_disable_antialiasing,
        }
    }
}

impl RasterState {
    /// Every buffer covers the screen, and polygon IDs have 6 bits.
    pub open spec fn wf(self) -> bool {
        &&& self.framebuffer.len() == FB_PIXELS
        &&& self.alpha_buffer.len() == FB_PIXELS
        &&& self.depth_buffer.len() == FB_PIXELS
        &&& self.id_buffer.len() == FB_PIXELS
        &&& self.edge_enable_buffer.len() == FB_PIXELS
        &&& self.translucent_id_buffer.len() == FB_PIXELS
        &&& self.fog_enable_buffer.len() == FB_PIXELS
        &&& self.zero_dot_buffer.len() == FB_PIXELS
        &&& self.rear_color_buffer.len() == FB_PIXELS
        &&& self.aa_coverage_buffer.len() == FB_PIXELS
        &&& self.aa_edge_hint_buffer.len() == FB_PIXELS
        &&& self.shadow_stencil.len() == FB_PIXELS
        &&& forall|i: int| 0 <= i < FB_PIXELS ==> #[trigger] self.id_buffer[i] < 64
    }

    /// Bit of `DISP3DCNT` with the given weight.
    pub open spec fn control(self, weight: int) -> bool {
        fixed::bit(self.disp3dcnt as int, weight)
    }

    /// Whether both states have the same registers.
    pub open spec fn same_registers(self, other: RasterState) -> bool {
        &&& self.clear_color == other.clear_color
        &&& self.clear_depth == other.clear_depth
        &&& self.clear_image_offset == other.clear_image_offset
        &&& self.disp3dcnt == other.disp3dcnt
        &&& self.edge_color == other.edge_color
        &&& self.fog_color == other.fog_color
        &&& self.fog_offset == other.fog_offset
        &&& self.fog_table == other.fog_table
        &&& self.toon_table == other.toon_table
        &&& self.alpha_test_ref == other.alpha_test_ref
        &&& self.manual_translucent_sort == other.manual_translucent_sort
        &&& self.w_buffering == other.w_buffering
        &&& self.debug_disable_antialiasing == other.debug_disable_antialiasing
    }
}

/// A buffer that holds `value` at every pixel.
pub open spec fn filled<T>(value: T) -> Seq<T> {
    Seq::new(FB_PIXELS as nat, |i: int| value)
}

/// The rasterizer at power-on.
pub open spec fn blank() -> RasterState {
    RasterState {
        framebuffer: filled(0u16),
        alpha_buffer: filled(0u8),
        depth_buffer: filled(DEPTH_MAX),
        id_buffer: filled(0u8),
        edge_enable_buffer: filled(0u8),
        translucent_id_buffer: filled(0xFFu8),
        fog_enable_buffer: filled(0u8),
        zero_dot_buffer: filled(0u8),
        rear_color_buffer: filled(0u16),
        aa_coverage_buffer: filled(0u8),
        aa_edge_hint_buffer: filled(0u8),
        shadow_stencil: filled(0u8),
        clear_color: POWER_ON_CLEAR_COLOR,
        clear_depth: 0x7FFF,
        clear_image_offset: 0,
        disp3dcnt: 0,
        edge_color: [0, 0, 0, 0, 0, 0, 0, 0],
        fog_color: 0,
        fog_offset: 0,
        fog_table: [
            0, 0, 0, 0, 0, 0, 0, 0, 0, 0, 0, 0, 0, 0, 0, 0,
            0, 0, 0, 0, 0, 0, 0, 0, 0, 0, 0, 0, 0, 0, 0, 0,
        ],
        toon_table: [
            0, 0, 0, 0, 0, 0, 0, 0, 0, 0, 0, 0, 0, 0, 0, 0,
            0, 0, 0, 0, 0, 0, 0, 0, 0, 0, 0, 0, 0, 0, 0, 0,
        ],
        alpha_test_ref: 0,
        manual_translucent_sort: false,
        w_buffering: false,
        debug_disable_antialiasing: false,
    }
}

/// A 15-bit depth expanded to the 24-bit range:
/// `x * 0x200 + ((x + 1) / 0x8000) * 0x1FF`.
pub open spec fn expanded_depth(value: int) -> i32 {
    let x = value % 0x8000;
    (x * 0x200 + (x + 1) / 0x8000 * 0x1FF) as i32
}

/// The polygon ID of the rear plane.
pub open spec fn rear_id(clear_color: u32) -> u8 {
    (clear_color as int / 0x100_0000 % 64) as u8
}

/// The banks behind an optional router.
pub open spec fn banks_of(vram: Option<&VramRouter>) -> Option<Seq<BankState>> {
    match vram {
        Some(v) => Some(v@),
        None => None,
    }
}

/// The buffers that a clear resets the same way whatever the rear plane is.
pub open spec fn reset(r: RasterState) -> RasterState {
    RasterState {
        id_buffer: filled(rear_id(r.clear_color)),
        edge_enable_buffer: filled(0u8),
        translucent_id_buffer: filled(0xFFu8),
        zero_dot_buffer: filled(0u8),
        aa_coverage_buffer: filled(0u8),
        aa_edge_hint_buffer: filled(0u8),
        shadow_stencil: filled(0u8),
        ..r
    }
}

/// The buffers cleared from the clear registers.
pub open spec fn cleared_from_registers(r: RasterState) -> RasterState {
    let alpha = (r.clear_color as int / 0x1_0000 % 32) as u8;
    let color = (r.clear_color as int % 0x8000 + if alpha != 0 { 0x8000int } else { 0 }) as u16;
    let fog: u8 = if fixed::bit(r.clear_color as int, 0x8000) { 1 } else { 0 };
    RasterState {
        framebuffer: filled(color),
        rear_color_buffer: filled(color),
        alpha_buffer: filled(alpha),
        depth_buffer: filled(expanded_depth(r.clear_depth as int)),
        fog_enable_buffer: filled(fog),
        ..reset(r)
    }
}

/// Address of the rear bitmap pixel behind screen pixel `i`, relative to the
/// bitmap: scrolled by `CLRIMAGE_OFFSET` with wrap-around at 256.
pub open spec fn rear_address(offset: u16, i: int) -> int {
    let x = (i % 256 + offset as int % 256) % 256;
    let y = (i / 256 + offset as int / 256) % 256;
    (y * 256 + x) * 2
}

/// The rear bitmap's color word behind screen pixel `i`.
pub open spec fn rear_color_word(r: RasterState, banks: Seq<BankState>, i: int) -> u16 {
    texture::image_u16(0x4_0000 + rear_address(r.clear_image_offset, i), banks)
}

/// The rear bitmap's depth word behind screen pixel `i`.
pub open spec fn rear_depth_word(r: RasterState, banks: Seq<BankState>, i: int) -> u16 {
    texture::image_u16(0x6_0000 + rear_address(r.clear_image_offset, i), banks)
}

/// The buffers cleared from the rear bitmap in texture slots 2 and 3.
pub open spec fn cleared_from_bitmap(r: RasterState, banks: Seq<BankState>) -> RasterState {
    RasterState {
        framebuffer: Seq::new(FB_PIXELS as nat, |i: int| rear_color_word(r, banks, i)),
        rear_color_buffer: Seq::new(FB_PIXELS as nat, |i: int| rear_color_word(r, banks, i)),
        alpha_buffer: Seq::new(
            FB_PIXELS as nat,
            |i: int| if rear_color_word(r, banks, i) >= 0x8000 { 31u8 } else { 0u8 },
        ),
        depth_buffer: Seq::new(
            FB_PIXELS as nat,
            |i: int| expanded_depth(rear_depth_word(r, banks, i) as int),
        ),
        fog_enable_buffer: Seq::new(
            FB_PIXELS as nat,
            |i: int| if rear_depth_word(r, banks, i) >= 0x8000 { 1u8 } else { 0u8 },
        ),
        ..reset(r)
    }
}

/// The state after pixel `i` took color and depth from the rear bitmap.
spec fn pixel_from_bitmap(r: RasterState, banks: Seq<BankState>, i: int) -> RasterState {
    let color = rear_color_word(r, banks, i);
    let depth = rear_depth_word(r, banks, i);
    RasterState {
        framebuffer: r.framebuffer.update(i, color),
        rear_color_buffer: r.rear_color_buffer.update(i, color),
        alpha_buffer: r.alpha_buffer.update(i, if color >= 0x8000 { 31 } else { 0 }),
        depth_buffer: r.depth_buffer.update(i, expanded_depth(depth as int)),
        fog_enable_buffer: r.fog_enable_buffer.update(i, if depth >= 0x8000 { 1 } else { 0 }),
        ..r
    }
}

/// The state after the first `n` pixels took theirs.
spec fn partly_cleared(r: RasterState, banks: Seq<BankState>, n: int) -> RasterState {
    let whole = cleared_from_bitmap(r, banks);
    RasterState {
        framebuffer: whole.framebuffer.take(n) + r.framebuffer.skip(n),
        rear_color_buffer: whole.rear_color_buffer.take(n) + r.rear_color_buffer.skip(n),
        alpha_buffer: whole.alpha_buffer.take(n) + r.alpha_buffer.skip(n),
        depth_buffer: whole.depth_buffer.take(n) + r.depth_buffer.skip(n),
        fog_enable_buffer: whole.fog_enable_buffer.take(n) + r.fog_enable_buffer.skip(n),
        ..r
    }
}

/// The buffers at the start of a frame. With `DISP3DCNT` bit 14 set and VRAM at
/// hand, the rear plane is a bitmap; otherwise it comes from the registers.
pub open spec fn cleared(r: RasterState, banks: Option<Seq<BankState>>) -> RasterState {
    match banks {
        Some(b) => if r.control(0x4000) {
            cleared_from_bitmap(r, b)
        } else {
            cleared_from_registers(r)
        },
        None => cleared_from_registers(r),
    }
}

/// Whether a polygon is drawn with the translucent ones: its alpha is between 1
/// and 30, or its texture carries alpha that its mode uses.
pub open spec fn translucent(p: ScreenPolygonState, textures: bool) -> bool {
    let alpha = p.attr as int / 0x1_0000 % 32;
    let mode = p.attr as int / 16 % 4;
    let format = p.tex_image_param as int / 0x400_0000 % 8;
    ||| 0 < alpha < 31
    ||| textures && (mode == 0 || mode == 2) && (format == 1 || format == 6)
}

/// The topmost vertex row of the first `n` vertices, in 24.8 fixed-point.
pub open spec fn top_of(p: ScreenPolygonState, n: int) -> int
    decreases n,
{
    if n <= 1 {
        p.vertices[0].screen_y as int
    } else {
        fixed::min(top_of(p, n - 1), p.vertices[n - 1].screen_y as int)
    }
}

/// The key by which translucent polygons are sorted: the topmost vertex row, 0
/// without vertices.
pub open spec fn sort_key(p: ScreenPolygonState) -> int {
    if p.vertices.len() == 0 {
        0
    } else {
        top_of(p, p.vertices.len() as int)
    }
}

/// `order` with polygon `i` put behind the last polygon whose key is not
/// greater.
pub open spec fn inserted(order: Seq<int>, polys: Seq<ScreenPolygonState>, i: int) -> Seq<int>
    decreases order.len(),
{
    if order.len() == 0 || sort_key(polys[order.last()]) <= sort_key(polys[i]) {
        order.push(i)
    } else {
        inserted(order.drop_last(), polys, i).push(order.last())
    }
}

/// The opaque polygons among the first `n`, in order.
pub open spec fn opaque_order(polys: Seq<ScreenPolygonState>, textures: bool, n: int) -> Seq<int>
    decreases n,
{
    if n <= 0 {
        Seq::empty()
    } else if translucent(polys[n - 1], textures) {
        opaque_order(polys, textures, n - 1)
    } else {
        opaque_order(polys, textures, n - 1).push(n - 1)
    }
}

/// The translucent polygons among the first `n`: in order where `manual`,
/// otherwise sorted by their key, equal keys in order.
pub open spec fn translucent_order(
    polys: Seq<ScreenPolygonState>,
    textures: bool,
    manual: bool,
    n: int,
) -> Seq<int>
    decreases n,
{
    if n <= 0 {
        Seq::empty()
    } else {
        let rest = translucent_order(polys, textures, manual, n - 1);
        if !translucent(polys[n - 1], textures) {
            rest
        } else if manual {
            rest.push(n - 1)
        } else {
            inserted(rest, polys, n - 1)
        }
    }
}

/// The state after drawing the first `k` polygons of `order`.
pub open spec fn drawn(
    r: RasterState,
    polys: Seq<ScreenPolygonState>,
    order: Seq<int>,
    banks: Option<Seq<BankState>>,
    k: int,
) -> RasterState
    decreases k,
{
    if k <= 0 {
        r
    } else {
        triangle::polygon_drawn(drawn(r, polys, order, banks, k - 1), polys[order[k - 1]], banks)
    }
}

/// The frame: cleared buffers, opaque polygons, translucent polygons,
/// post-effects.
pub open spec fn rendered(
    r: RasterState,
    polys: Seq<ScreenPolygonState>,
    banks: Option<Seq<BankState>>,
) -> RasterState {
    let textures = r.control(1);
    let first = opaque_order(polys, textures, polys.len() as int);
    let second = translucent_order(
        polys,
        textures,
        r.manual_translucent_sort,
        polys.len() as int,
    );
    let solid = drawn(cleared(r, banks), polys, first, banks, first.len() as int);
    postfx::applied(drawn(solid, polys, second, banks, second.len() as int))
}

pub fn expand_clear_depth(value: u16) -> (r: i32)
    ensures
        r == expanded_depth(value as int),
{
    let x: i32 = (value % 0x8000) as i32;
    x * 0x200 + ((x + 1) / 0x8000) * 0x1FF
}

/// The states of a sequence of screen polygons.
pub open spec fn polygon_states(polys: Seq<ScreenPolygon>) -> Seq<ScreenPolygonState> {
    Seq::new(polys.len(), |i: int| polys[i]@)
}

/// A frame depends on the registers only: whatever the buffers held before, the
/// same registers, polygons and textures give the same frame.
pub proof fn law_frame_ignores_old_buffers(
    r: RasterState,
    other: RasterState,
    polys: Seq<ScreenPolygonState>,
    banks: Option<Seq<BankState>>,
)
    requires
        r.same_registers(other),
    ensures
        rendered(r, polys, banks) == rendered(other, polys, banks),
{
    assert(reset(r) =~= RasterState {
        framebuffer: r.framebuffer,
        rear_color_buffer: r.rear_color_buffer,
        alpha_buffer: r.alpha_buffer,
        depth_buffer: r.depth_buffer,
        fog_enable_buffer: r.fog_enable_buffer,
        ..reset(other)
    });
    if let Some(b) = banks {
        assert(cleared_from_bitmap(r, b) =~= cleared_from_bitmap(other, b));
    }
    assert(cleared_from_registers(r) =~= cleared_from_registers(other));
    assert(cleared(r, banks) == cleared(other, banks));
}

/// Without polygons the frame is the cleared rear plane with the post-effects.
pub proof fn law_empty_frame(r: RasterState, banks: Option<Seq<BankState>>)
    ensures
        rendered(r, Seq::empty(), banks) == postfx::applied(cleared(r, banks)),
{
}

/// Translucent polygons come out sorted by key, equal keys in submission order.
pub proof fn law_translucent_order_sorted(
    polys: Seq<ScreenPolygonState>,
    textures: bool,
    n: int,
    i: int,
    j: int,
)
    requires
        0 <= n <= polys.len(),
        0 <= i < j < translucent_order(polys, textures, false, n).len(),
    ensures
        ({
            let order = translucent_order(polys, textures, false, n);
            let a = sort_key(polys[order[i]]);
            let b = sort_key(polys[order[j]]);
            a < b || (a == b && order[i] < order[j])
        }),
{
    lemma_order_sorted(polys, textures, n);
}

/// Every polygon is drawn exactly once: each index below `n` stands either
/// among the opaque or among the translucent polygons.
pub proof fn law_every_polygon_drawn_once(
    polys: Seq<ScreenPolygonState>,
    textures: bool,
    manual: bool,
    n: int,
    i: int,
)
    requires
        0 <= i < n <= polys.len(),
    ensures
        opaque_order(polys, textures, n).contains(i) == !translucent(polys[i], textures),
        translucent_order(polys, textures, manual, n).contains(i) == translucent(
            polys[i],
            textures,
        ),
        opaque_order(polys, textures, n).len() + translucent_order(polys, textures, manual, n).len()
            == n,
{
    lemma_orders_partition(polys, textures, manual, n);
    if translucent(polys[i], textures) {
        if opaque_order(polys, textures, n).contains(i) {
            let k = opaque_order(polys, textures, n).index_of(i);
            assert(opaque_order(polys, textures, n)[k] == i);
        }
    } else {
        if translucent_order(polys, textures, manual, n).contains(i) {
            let k = translucent_order(polys, textures, manual, n).index_of(i);
            assert(translucent_order(polys, textures, manual, n)[k] == i);
        }
    }
}

proof fn lemma_inserted(order: Seq<int>, polys: Seq<ScreenPolygonState>, i: int)
    ensures
        inserted(order, polys, i).len() == order.len() + 1,
        forall|x: int|
            #[trigger] inserted(order, polys, i).contains(x) <==> (order.contains(x) || x == i),
    decreases order.len(),
{
    let out = inserted(order, polys, i);
    if order.len() == 0 || sort_key(polys[order.last()]) <= sort_key(polys[i]) {
        assert forall|x: int| #[trigger] out.contains(x) <==> (order.contains(x) || x == i) by {
            if order.contains(x) {
                assert(out[order.index_of(x)] == x);
            }
            if x == i {
                assert(out[order.len() as int] == x);
            }
            if out.contains(x) {
                let k = out.index_of(x);
                if k < order.len() {
                    assert(order[k] == x);
                }
            }
        }
    } else {
        let rest = order.drop_last();
        lemma_inserted(rest, polys, i);
        let mid = inserted(rest, polys, i);
        assert forall|x: int| #[trigger] out.contains(x) <==> (order.contains(x) || x == i) by {
            if rest.contains(x) {
                assert(order[rest.index_of(x)] == x);
            }
            if mid.contains(x) {
                assert(out[mid.index_of(x)] == x);
            }
            if x == order.last() {
                assert(out[mid.len() as int] == x);
                assert(order[order.len() - 1] == x);
            }
            if order.contains(x) {
                let k = order.index_of(x);
                if k < rest.len() {
                    assert(rest[k] == x);
                }
            }
            if out.contains(x) {
                let k = out.index_of(x);
                if k < mid.len() {
                    assert(mid[k] == x);
                }
            }
        }
    }
}

proof fn lemma_orders_partition(
    polys: Seq<ScreenPolygonState>,
    textures: bool,
    manual: bool,
    n: int,
)
    requires
        0 <= n <= polys.len(),
    ensures
        opaque_order(polys, textures, n).len() + translucent_order(polys, textures, manual, n).len()
            == n,
        forall|k: int|
            0 <= k < opaque_order(polys, textures, n).len() ==> 0 <= #[trigger] opaque_order(
                polys,
                textures,
                n,
            )[k] < n && !translucent(polys[opaque_order(polys, textures, n)[k]], textures),
        forall|k: int|
            0 <= k < translucent_order(polys, textures, manual, n).len() ==> 0
                <= #[trigger] translucent_order(polys, textures, manual, n)[k] < n && translucent(
                polys[translucent_order(polys, textures, manual, n)[k]],
                textures,
            ),
        forall|i: int|
            0 <= i < n ==> if translucent(#[trigger] polys[i], textures) {
                translucent_order(polys, textures, manual, n).contains(i)
            } else {
                opaque_order(polys, textures, n).contains(i)
            },
    decreases n,
{
    if n > 0 {
        lemma_orders_partition(polys, textures, manual, n - 1);
        let solid = opaque_order(polys, textures, n - 1);
        let clear = translucent_order(polys, textures, manual, n - 1);
        let solid2 = opaque_order(polys, textures, n);
        let clear2 = translucent_order(polys, textures, manual, n);
        lemma_inserted(clear, polys, n - 1);
        assert(translucent(polys[n - 1], textures) ==> clear2.len() == clear.len() + 1);
        assert forall|x: int| #[trigger] clear2.contains(x) <==> (clear.contains(x) || (x == n - 1
            && translucent(polys[n - 1], textures))) by {
            if translucent(polys[n - 1], textures) && manual {
                assert(clear2[clear.len() as int] == n - 1);
                if clear.contains(x) {
                    assert(clear2[clear.index_of(x)] == x);
                }
                if clear2.contains(x) {
                    let k = clear2.index_of(x);
                    if k < clear.len() {
                        assert(clear[k] == x);
                    }
                }
            }
        }
        assert forall|k: int| 0 <= k < clear2.len() implies 0 <= #[trigger] clear2[k] < n
            && translucent(polys[clear2[k]], textures) by {
            assert(clear2.contains(clear2[k]));
            if clear.contains(clear2[k]) {
                let j = clear.index_of(clear2[k]);
                assert(0 <= clear[j] < n - 1);
            }
        }
        assert forall|i: int| 0 <= i < n implies if translucent(#[trigger] polys[i], textures) {
            clear2.contains(i)
        } else {
            solid2.contains(i)
        } by {
            if !translucent(polys[i], textures) {
                if i == n - 1 {
                    assert(solid2[solid.len() as int] == i);
                } else {
                    let j = solid.index_of(i);
                    assert(solid2[j] == i);
                }
            }
        }
    }
}

/// `order` ascends by key, and by index among equal keys.
pub open spec fn ascending(order: Seq<int>, polys: Seq<ScreenPolygonState>) -> bool {
    forall|i: int, j: int|
        0 <= i < j < order.len() ==> before(polys, #[trigger] order[i], #[trigger] order[j])
}

/// Whether polygon `a` is drawn before polygon `b`.
pub open spec fn before(polys: Seq<ScreenPolygonState>, a: int, b: int) -> bool {
    sort_key(polys[a]) < sort_key(polys[b]) || (sort_key(polys[a]) == sort_key(polys[b]) && a < b)
}

proof fn lemma_insert_ascending(order: Seq<int>, polys: Seq<ScreenPolygonState>, i: int)
    requires
        ascending(order, polys),
        forall|k: int| 0 <= k < order.len() ==> #[trigger] order[k] < i,
    ensures
        ascending(inserted(order, polys, i), polys),
    decreases order.len(),
{
    let out = inserted(order, polys, i);
    if order.len() == 0 || sort_key(polys[order.last()]) <= sort_key(polys[i]) {
        assert forall|a: int, b: int| 0 <= a < b < out.len() implies before(
            polys,
            #[trigger] out[a],
            #[trigger] out[b],
        ) by {
            if b == order.len() {
                if a < order.len() - 1 {
                    assert(before(polys, order[a], order[order.len() - 1]));
                }
            } else {
                assert(before(polys, order[a], order[b]));
            }
        }
    } else {
        let rest = order.drop_last();
        assert(ascending(rest, polys)) by {
            assert forall|a: int, b: int| 0 <= a < b < rest.len() implies before(
                polys,
                #[trigger] rest[a],
                #[trigger] rest[b],
            ) by {
                assert(before(polys, order[a], order[b]));
            }
        }
        lemma_insert_ascending(rest, polys, i);
        lemma_inserted(rest, polys, i);
        let mid = inserted(rest, polys, i);
        assert forall|a: int, b: int| 0 <= a < b < out.len() implies before(
            polys,
            #[trigger] out[a],
            #[trigger] out[b],
        ) by {
            if b == mid.len() {
                assert(mid.contains(mid[a]));
                if rest.contains(mid[a]) {
                    let k = rest.index_of(mid[a]);
                    assert(before(polys, order[k], order[order.len() - 1]));
                }
            } else {
                assert(before(polys, mid[a], mid[b]));
            }
        }
    }
}

proof fn lemma_order_sorted(polys: Seq<ScreenPolygonState>, textures: bool, n: int)
    requires
        0 <= n <= polys.len(),
    ensures
        ascending(translucent_order(polys, textures, false, n), polys),
    decreases n,
{
    if n > 0 {
        lemma_order_sorted(polys, textures, n - 1);
        lemma_orders_partition(polys, textures, false, n - 1);
        lemma_insert_ascending(
            translucent_order(polys, textures, false, n - 1),
            polys,
            n - 1,
        );
    }
}

/// Overwrite every element of a buffer.
fn fill<T: Copy>(buffer: &mut Vec<T>, value: T)
    requires
        old(buffer)@.len() == FB_PIXELS,
    ensures
        final(buffer)@ == filled(value),
{
    for i in 0..FB_PIXELS
        invariant
            buffer@.len() == FB_PIXELS,
            forall|k: int| 0 <= k < i ==> buffer@[k] == value,
    {
        buffer[i] = value;
    }
    assert(buffer@ =~= filled(value));
}

impl Rasterizer {
    pub fn new() -> (r: Self)
        ensures
            r@ == blank(),
            r@.wf(),
    {
        let r = Rasterizer {
            framebuffer: vec![0u16; FB_PIXELS],
            alpha_buffer: vec![0u8; FB_PIXELS],
            depth_buffer: vec![DEPTH_MAX; FB_PIXELS],
            id_buffer: vec![0u8; FB_PIXELS],
            edge_enable_buffer: vec![0u8; FB_PIXELS],
            translucent_id_buffer: vec![0xFFu8; FB_PIXELS],
            fog_enable_buffer: vec![0u8; FB_PIXELS],
            zero_dot_buffer: vec![0u8; FB_PIXELS],
            rear_color_buffer: vec![0u16; FB_PIXELS],
            aa_coverage_buffer: vec![0u8; FB_PIXELS],
            aa_edge_hint_buffer: vec![0u8; FB_PIXELS],
            shadow_stencil: vec![0u8; FB_PIXELS],
            clear_color: POWER_ON_CLEAR_COLOR,
            clear_depth: 0x7FFF,
            clear_image_offset: 0,
            disp3dcnt: 0,
            edge_color: [0; 8],
            fog_color: 0,
            fog_offset: 0,
            fog_table: [0; 32],
            toon_table: [0; 32],
            alpha_test_ref: 0,
            manual_translucent_sort: false,
            w_buffering: false,
            debug_disable_antialiasing: false,
        };
        assert(r.edge_color =~= blank().edge_color);
        assert(r.fog_table =~= blank().fog_table);
        assert(r.toon_table =~= blank().toon_table);
        assert(r@ =~= blank());
        r
    }

    /// Latch the `SWAP_BUFFERS` attributes.
    pub fn set_swap_attrs(&mut self, attrs: u32)
        ensures
            final(self)@ == with_swap_attrs(old(self)@, attrs),
    {
        self.manual_translucent_sort = fixed::has_bit(attrs, 1);
        self.w_buffering = fixed::has_bit(attrs, 2);
    }

    /// Write the `DISP3DCNT` register.
    pub fn set_disp3dcnt(&mut self, value: u16)
        ensures
            final(self)@ == (RasterState { disp3dcnt: value, ..old(self)@ }),
    {
        self.disp3dcnt = value;
    }

    /// Clear the buffers from the clear registers.
    pub fn clear(&mut self)
        requires
            old(self)@.wf(),
        ensures
            final(self)@ == cleared_from_registers(old(self)@),
            final(self)@.wf(),
    {
        self.clear_with_vram(None);
    }

    /// Clear the buffers from the rear plane. When `DISP3DCNT` bit 14 is set,
    /// the rear plane comes from texture slots 2 and 3.
    pub fn clear_with_vram(&mut self, vram: Option<&VramRouter>)
        requires
            old(self)@.wf(),
            vram matches Some(v) ==> v.wf(),
        ensures
            final(self)@ == cleared(old(self)@, banks_of(vram)),
            final(self)@.wf(),
    {
        if fixed::has_bit(self.disp3dcnt as u32, 0x4000) {
            if let Some(v) = vram {
                self.clear_from_rear_bitmap(v);
                return;
            }
        }
        let ghost before = self@;
        // Alpha 0 means "no 3D pixel here": the 2D compositor sees through.
        let alpha: u8 = ((self.clear_color / 0x1_0000) % 32) as u8;
        let color: u16 = (self.clear_color % 0x8000) as u16 + if alpha != 0 {
            0x8000
        } else {
            0
        };
        let fog: u8 = if fixed::has_bit(self.clear_color, 0x8000) {
            1
        } else {
            0
        };
        fill(&mut self.framebuffer, color);
        fill(&mut self.rear_color_buffer, color);
        fill(&mut self.alpha_buffer, alpha);
        let depth: i32 = expand_clear_depth(self.clear_depth);
        fill(&mut self.depth_buffer, depth);
        fill(&mut self.fog_enable_buffer, fog);
        self.reset_common();
        assert(self@ =~= cleared_from_registers(before));
    }

    /// Reset the buffers that do not depend on the kind of rear plane.
    fn reset_common(&mut self)
        requires
            old(self)@.wf(),
        ensures
            final(self)@ == reset(old(self)@),
            final(self)@.wf(),
    {
        let ghost before = self@;
        let id: u8 = ((self.clear_color / 0x100_0000) % 64) as u8;
        fill(&mut self.id_buffer, id);
        fill(&mut self.edge_enable_buffer, 0);
        fill(&mut self.translucent_id_buffer, 0xFF);
        fill(&mut self.zero_dot_buffer, 0);
        fill(&mut self.aa_coverage_buffer, 0);
        fill(&mut self.aa_edge_hint_buffer, 0);
        fill(&mut self.shadow_stencil, 0);
        assert(self@ =~= reset(before));
    }

    fn clear_from_rear_bitmap(&mut self, vram: &VramRouter)
        requires
            old(self)@.wf(),
            vram.wf(),
        ensures
            final(self)@ == cleared_from_bitmap(old(self)@, vram@),
            final(self)@.wf(),
    {
        let ghost before = self@;
        let ghost banks = vram@;
        self.reset_common();
        let ghost mid = self@;
        for i in 0..FB_PIXELS
            invariant
                vram.wf(),
                banks == vram@,
                mid == reset(before),
                mid.wf(),
                self@.wf(),
                self@ == partly_cleared(mid, banks, i as int),
        {
            self.clear_pixel_from_bitmap(vram, i);
            assert(self@ =~= partly_cleared(mid, banks, i + 1));
        }
        assert(self@ =~= cleared_from_bitmap(before, banks));
    }

    /// Copy the rear bitmap's color and depth behind pixel `i`.
    fn clear_pixel_from_bitmap(&mut self, vram: &VramRouter, i: usize)
        requires
            old(self)@.wf(),
            vram.wf(),
            i < FB_PIXELS,
        ensures
            final(self)@ == pixel_from_bitmap(old(self)@, vram@, i as int),
            final(self)@.wf(),
    {
        let x_off: usize = (self.clear_image_offset % 256) as usize;
        let y_off: usize = (self.clear_image_offset / 256) as usize;
        let src_x: usize = (i % 256 + x_off) % 256;
        let src_y: usize = (i / 256 + y_off) % 256;
        let src: u32 = ((src_y * 256 + src_x) * 2) as u32;
        let color: u16 = texture::read_image_u16(vram, 0x4_0000 + src);
        let depth: u16 = texture::read_image_u16(vram, 0x6_0000 + src);
        self.framebuffer[i] = color;
        self.rear_color_buffer[i] = color;
        self.alpha_buffer[i] = if color >= 0x8000 {
            31
        } else {
            0
        };
        self.depth_buffer[i] = expand_clear_depth(depth);
        self.fog_enable_buffer[i] = if depth >= 0x8000 {
            1
        } else {
            0
        };
    }

    /// Draw the polygons in the given order.
    fn draw_in_order(
        &mut self,
        polygons: &[ScreenPolygon],
        order: &Vec<usize>,
        vram: Option<&VramRouter>,
    )
        requires
            old(self)@.wf(),
            vram matches Some(v) ==> v.wf(),
            forall|k: int| 0 <= k < order@.len() ==> #[trigger] order@[k] < polygons@.len(),
        ensures
            final(self)@.wf(),
            final(self)@ == drawn(
                old(self)@,
                polygon_states(polygons@),
                as_ints(order@),
                banks_of(vram),
                order@.len() as int,
            ),
    {
        let ghost start = self@;
        let ghost polys = polygon_states(polygons@);
        let ghost banks = banks_of(vram);
        for k in 0..order.len()
            invariant
                self@.wf(),
                vram matches Some(v) ==> v.wf(),
                polys == polygon_states(polygons@),
                banks == banks_of(vram),
                forall|k: int| 0 <= k < order@.len() ==> #[trigger] order@[k] < polygons@.len(),
                self@ == drawn(start, polys, as_ints(order@), banks, k as int),
        {
            assert(order@[k as int] < polygons@.len());
            let i: usize = order[k];
            assert(polys[as_ints(order@)[k as int]] == polygons@[i as int]@);
            triangle::rasterize_polygon(&polygons[i], self, vram);
        }
    }

    /// Rasterize every polygon into the framebuffer, then apply post-effects.
    ///
    /// - Opaque polygons are drawn first, translucent ones after.
    /// - `vram` is `None` where no textures are at hand; polygons are then drawn
    ///   with their vertex colors.
    pub fn render_frame(&mut self, polygons: &[ScreenPolygon], vram: Option<&VramRouter>)
        requires
            old(self)@.wf(),
            vram matches Some(v) ==> v.wf(),
        ensures
            final(self)@ == rendered(old(self)@, polygon_states(polygons@), banks_of(vram)),
            final(self)@.wf(),
    {
        let ghost polys = polygon_states(polygons@);
        self.clear_with_vram(vram);
        let textures: bool = fixed::has_bit(self.disp3dcnt as u32, 1);
        let manual: bool = self.manual_translucent_sort;
        let mut opaque: Vec<usize> = Vec::new();
        let mut clear: Vec<usize> = Vec::new();
        for i in 0..polygons.len()
            invariant
                polys == polygon_states(polygons@),
                as_ints(opaque@) == opaque_order(polys, textures, i as int),
                as_ints(clear@) == translucent_order(polys, textures, manual, i as int),
                forall|k: int| 0 <= k < opaque@.len() ==> #[trigger] opaque@[k] < i,
                forall|k: int| 0 <= k < clear@.len() ==> #[trigger] clear@[k] < i,
        {
            assert(polys[i as int] == polygons@[i as int]@);
            let ghost solid = opaque@;
            let ghost glass = clear@;
            if !is_translucent(&polygons[i], textures) {
                opaque.push(i);
                assert(as_ints(opaque@) =~= as_ints(solid).push(i as int));
            } else if manual {
                clear.push(i);
                assert(as_ints(clear@) =~= as_ints(glass).push(i as int));
            } else {
                insert_by_key(&mut clear, polygons, i);
            }
        }
        self.draw_in_order(polygons, &opaque, vram);
        self.draw_in_order(polygons, &clear, vram);
        postfx::apply(self);
    }
}

impl Default for Rasterizer {
    fn default() -> (r: Self)
        ensures
            r@ == blank(),
            r@.wf(),
    {
        Self::new()
    }
}

/// The state with the `SWAP_BUFFERS` attributes latched.
pub open spec fn with_swap_attrs(r: RasterState, attrs: u32) -> RasterState {
    RasterState {
        manual_translucent_sort: fixed::bit(attrs as int, 1),
        w_buffering: fixed::bit(attrs as int, 2),
        ..r
    }
}

/// Indices as numbers.
pub open spec fn as_ints(order: Seq<usize>) -> Seq<int> {
    Seq::new(order.len(), |k: int| order[k] as int)
}

/// Put polygon `i` behind the last polygon of `order` whose key is not greater.
fn insert_by_key(order: &mut Vec<usize>, polygons: &[ScreenPolygon], i: usize)
    requires
        i < polygons@.len(),
        forall|k: int| 0 <= k < old(order)@.len() ==> #[trigger] old(order)@[k] < i,
    ensures
        as_ints(final(order)@) == inserted(
            as_ints(old(order)@),
            polygon_states(polygons@),
            i as int,
        ),
        forall|k: int| 0 <= k < final(order)@.len() ==> #[trigger] final(order)@[k] <= i,
{
    let ghost polys = polygon_states(polygons@);
    let ghost start = order@;
    let key: i32 = polygon_y_sort_key(&polygons[i]);
    let mut p: usize = order.len();
    let mut searching: bool = p > 0;
    while searching
        invariant
            p <= order@.len(),
            order@ == start,
            i < polygons@.len(),
            polys == polygon_states(polygons@),
            key == sort_key(polys[i as int]),
            forall|k: int| 0 <= k < order@.len() ==> #[trigger] order@[k] < i,
            forall|k: int| p <= k < order@.len() ==> sort_key(polys[#[trigger] order@[k] as int]) > key,
            searching ==> p > 0,
            !searching ==> p == 0 || sort_key(polys[order@[p - 1] as int]) <= key,
        decreases p + if searching { 1int } else { 0 },
    {
        assert(order@[p - 1] < i);
        let other: i32 = polygon_y_sort_key(&polygons[order[p - 1]]);
        if other > key {
            p = p - 1;
            searching = p > 0;
        } else {
            searching = false;
        }
    }
    order.insert(p, i);
    proof {
        lemma_insert_position(as_ints(start), polys, i as int, p as int);
        assert(as_ints(order@) =~= as_ints(start).insert(p as int, i as int));
    }
}

/// Inserting before the polygons with a greater key is [`inserted`].
proof fn lemma_insert_position(order: Seq<int>, polys: Seq<ScreenPolygonState>, i: int, p: int)
    requires
        0 <= p <= order.len(),
        forall|k: int| p <= k < order.len() ==> sort_key(polys[#[trigger] order[k]]) > sort_key(polys[i]),
        p == 0 || sort_key(polys[order[p - 1]]) <= sort_key(polys[i]),
    ensures
        inserted(order, polys, i) == order.insert(p, i),
    decreases order.len(),
{
    if p == order.len() {
        assert(order.insert(p, i) =~= order.push(i));
    } else {
        let rest = order.drop_last();
        assert(sort_key(polys[order[order.len() - 1]]) > sort_key(polys[i]));
        assert forall|k: int| p <= k < rest.len() implies sort_key(polys[#[trigger] rest[k]])
            > sort_key(polys[i]) by {
            assert(rest[k] == order[k]);
        }
        lemma_insert_position(rest, polys, i, p);
        assert(order.insert(p, i) =~= rest.insert(p, i).push(order.last()));
    }
}

/// Whether a polygon is drawn with the translucent ones.
pub fn is_translucent(p: &ScreenPolygon, texture_mapping_enabled: bool) -> (r: bool)
    ensures
        r == translucent(p@, texture_mapping_enabled),
{
    let alpha: u32 = (p.attr / 0x1_0000) % 32;
    if alpha > 0 && alpha != 31 {
        return true;
    }
    if !texture_mapping_enabled {
        return false;
    }
    // A3I5 and A5I3 carry per-texel alpha, which modulation and toon/highlight
    // modes use. Decal mode uses it only as a color-mix ratio.
    let mode: u32 = (p.attr / 16) % 4;
    let format: u32 = (p.tex_image_param / 0x400_0000) % 8;
    (mode == 0 || mode == 2) && (format == 1 || format == 6)
}

/// The topmost vertex row.
fn polygon_y_sort_key(p: &ScreenPolygon) -> (r: i32)
    ensures
        r == sort_key(p@),
{
    let n: usize = p.vertices.len();
    if n == 0 {
        return 0;
    }
    let mut top: i32 = p.vertices[0].screen_y;
    for i in 1..n
        invariant
            n == p.vertices@.len(),
            n > 0,
            top == top_of(p@, i as int),
    {
        let y: i32 = p.vertices[i].screen_y;
        if y < top {
            top = y;
        }
    }
    top
}

/// A frame starts with the rear plane of the registers: `CLEAR_COLOR` holds the color
/// in its lowest 15 bits, the fog mark in bit 15, alpha from bit 16 and the polygon ID
/// from bit 24 on; with alpha 0 nothing is there to see. `CLEAR_DEPTH` has 15 bits, of
/// which the farthest is the end of the depth range.
pub proof fn law_rear_plane_registers(r: RasterState, banks: Option<Seq<BankState>>, i: int)
    requires
        0 <= i < FB_PIXELS,
        banks is None || r.disp3dcnt as int / 0x4000 % 2 == 0,
    ensures
        ({
            let c = r.clear_color as int;
            let d = r.clear_depth as int % 0x8000;
            let after = cleared(r, banks);
            let alpha = c / 0x1_0000 % 32;
            &&& after.framebuffer[i] % 0x8000 == c % 0x8000
            &&& (after.framebuffer[i] >= 0x8000) == (alpha > 0)
            &&& after.rear_color_buffer[i] == after.framebuffer[i]
            &&& after.alpha_buffer[i] == alpha
            &&& after.fog_enable_buffer[i] == c / 0x8000 % 2
            &&& after.id_buffer[i] == c / 0x100_0000 % 64
            &&& after.depth_buffer[i] == if d == 0x7FFF { 0xFF_FFFF } else { d * 512 }
            &&& after.edge_enable_buffer[i] == 0
            &&& after.translucent_id_buffer[i] == 0xFF
            &&& after.shadow_stencil[i] == 0
            &&& after.zero_dot_buffer[i] == 0
        }),
{
}

/// With `DISP3DCNT` bit 14 the rear plane is a picture of 256x256 in texture slot 2,
/// its depths in slot 3, scrolled by the two bytes of `CLRIMAGE_OFFSET`: X in the low
/// byte and Y in the high one.
pub proof fn law_rear_plane_bitmap(r: RasterState, banks: Seq<BankState>, x: int, y: int)
    requires
        0 <= x < 256,
        0 <= y < 192,
        r.disp3dcnt as int / 0x4000 % 2 == 1,
    ensures
        ({
            let ox = r.clear_image_offset as int % 256;
            let oy = r.clear_image_offset as int / 256;
            let place = 2 * ((y + oy) % 256 * 256 + (x + ox) % 256);
            let color = texture::image_u16(0x4_0000 + place, banks);
            let depth = texture::image_u16(0x6_0000 + place, banks);
            let d = depth as int % 0x8000;
            let i = y * 256 + x;
            let after = cleared(r, Some(banks));
            &&& after.framebuffer[i] == color
            &&& after.rear_color_buffer[i] == color
            &&& after.alpha_buffer[i] == if color >= 0x8000 { 31u8 } else { 0 }
            &&& after.depth_buffer[i] == if d == 0x7FFF { 0xFF_FFFF } else { d * 512 }
            &&& after.fog_enable_buffer[i] == if depth >= 0x8000 { 1u8 } else { 0 }
            &&& after.id_buffer[i] == r.clear_color as int / 0x100_0000 % 64
        }),
{
    let i = y * 256 + x;
    assert(i % 256 == x && i / 256 == y);
}

/// The two lowest bits of `SWAP_BUFFERS` select the sorting of translucent polygons
/// and what the depth test compares.
pub proof fn law_swap_attributes(r: RasterState, attrs: u32)
    ensures
        with_swap_attrs(r, attrs).manual_translucent_sort == (attrs % 2 == 1),
        with_swap_attrs(r, attrs).w_buffering == (attrs / 2 % 2 == 1),
        with_swap_attrs(r, attrs).framebuffer == r.framebuffer,
        with_swap_attrs(r, attrs).disp3dcnt == r.disp3dcnt,
{
}

/// A polygon counts as translucent by its alpha, 1 to 30, or by a texture with alpha
/// where textures are on and its mode is modulation or toon shading.
pub proof fn law_translucent_polygons(p: ScreenPolygonState, textures: bool)
    ensures
        ({
            let alpha = p.attr as int / 0x1_0000 % 32;
            let mode = p.attr as int / 16 % 4;
            let format = p.tex_image_param as int / 0x400_0000 % 8;
            &&& 0 < alpha < 31 ==> translucent(p, textures)
            &&& (alpha == 0 || alpha == 31) && !textures ==> !translucent(p, textures)
            &&& textures && mode % 2 == 0 && (format == 1 || format == 6) ==> translucent(
                p,
                textures,
            )
            &&& (alpha == 0 || alpha == 31) && mode % 2 == 1 ==> !translucent(p, textures)
            &&& (alpha == 0 || alpha == 31) && format != 1 && format != 6 ==> !translucent(
                p,
                textures,
            )
        }),
{
}

/// The sort key of a polygon is the row of its topmost vertex.
pub proof fn law_sort_key_is_topmost(p: ScreenPolygonState, k: int)
    requires
        0 <= k < p.vertices.len(),
    ensures
        sort_key(p) <= p.vertices[k].screen_y,
        exists|j: int|
            0 <= j < p.vertices.len() && sort_key(p) == (#[trigger] p.vertices[j]).screen_y,
{
    lemma_top_of(p, p.vertices.len() as int, k);
}

proof fn lemma_top_of(p: ScreenPolygonState, n: int, k: int)
    requires
        0 <= k < n <= p.vertices.len(),
    ensures
        top_of(p, n) <= p.vertices[k].screen_y,
        exists|j: int| 0 <= j < n && top_of(p, n) == (#[trigger] p.vertices[j]).screen_y,
    decreases n,
{
    if n > 1 {
        lemma_top_of(p, n - 1, if k < n - 1 { k } else { 0 });
        if top_of(p, n) != p.vertices[n - 1].screen_y {
            let j = choose|j: int|
                0 <= j < n - 1 && top_of(p, n - 1) == (#[trigger] p.vertices[j]).screen_y;
            assert(top_of(p, n) == p.vertices[j].screen_y);
        }
    } else {
        assert(top_of(p, n) == p.vertices[0].screen_y);
    }
}

/// Opaque polygons come before translucent ones, whatever the order in which they were
/// sent; opaque ones keep their order, and so do translucent ones where they are not to
/// be sorted.
pub proof fn law_opaque_before_translucent(
    r: RasterState,
    a: ScreenPolygonState,
    b: ScreenPolygonState,
    banks: Option<Seq<BankState>>,
)
    ensures
        ({
            let textures = r.disp3dcnt % 2 == 1;
            let (ta, tb) = (translucent(a, textures), translucent(b, textures));
            let start = cleared(r, banks);
            let ab = postfx::applied(
                triangle::polygon_drawn(triangle::polygon_drawn(start, a, banks), b, banks),
            );
            let ba = postfx::applied(
                triangle::polygon_drawn(triangle::polygon_drawn(start, b, banks), a, banks),
            );
            &&& !ta && tb ==> rendered(r, seq![a, b], banks) == ab
            &&& ta && !tb ==> rendered(r, seq![a, b], banks) == ba
            &&& !ta && !tb ==> rendered(r, seq![a, b], banks) == ab
            &&& ta && tb && r.manual_translucent_sort ==> rendered(r, seq![a, b], banks) == ab
            &&& ta && tb && !r.manual_translucent_sort && sort_key(a) <= sort_key(b) ==> rendered(
                r,
                seq![a, b],
                banks,
            ) == ab
            &&& ta && tb && !r.manual_translucent_sort && sort_key(a) > sort_key(b) ==> rendered(
                r,
                seq![a, b],
                banks,
            ) == ba
        }),
{
    let textures = r.control(1);
    assert(textures == (r.disp3dcnt % 2 == 1));
    let p = seq![a, b];
    let manual = r.manual_translucent_sort;
    reveal_with_fuel(opaque_order, 3);
    reveal_with_fuel(translucent_order, 3);
    reveal_with_fuel(inserted, 3);
    let first = opaque_order(p, textures, 2);
    let second = translucent_order(p, textures, manual, 2);
    let e = Seq::<int>::empty();
    let (ta, tb) = (translucent(a, textures), translucent(b, textures));
    assert(first =~= (if ta { e } else { seq![0int] }) + (if tb { e } else { seq![1int] }));
    if ta && tb && !manual && sort_key(a) > sort_key(b) {
        let one = translucent_order(p, textures, manual, 1);
        assert(one =~= seq![0int]);
        assert(one.drop_last() =~= e);
        assert(second =~= seq![1int, 0int]);
    } else {
        assert(second =~= (if ta { seq![0int] } else { e }) + (if tb { seq![1int] } else { e }));
    }
    lemma_drawn_few(cleared(r, banks), p, first, banks);
    lemma_drawn_few(
        drawn(cleared(r, banks), p, first, banks, first.len() as int),
        p,
        second,
        banks,
    );
}

proof fn lemma_drawn_few(
    r: RasterState,
    polys: Seq<ScreenPolygonState>,
    order: Seq<int>,
    banks: Option<Seq<BankState>>,
)
    ensures
        order.len() == 0 ==> drawn(r, polys, order, banks, 0) == r,
        order.len() == 1 ==> drawn(r, polys, order, banks, 1) == triangle::polygon_drawn(
            r,
            polys[order[0]],
            banks,
        ),
        order.len() == 2 ==> drawn(r, polys, order, banks, 2) == triangle::polygon_drawn(
            triangle::polygon_drawn(r, polys[order[0]], banks),
            polys[order[1]],
            banks,
        ),
{
    reveal_with_fuel(drawn, 3);
}

} // verus!
