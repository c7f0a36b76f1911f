//! Texture fetch: decode `TEXIMAGE_PARAM` and sample single texels.
//!
//! ```text
//! TEXIMAGE_PARAM bits:
//!   [15: 0]  VRAM offset in 8-byte units
//!   [17:16]  repeat S / T (bit 16 = S, bit 17 = T)
//!   [19:18]  flip S / T (bit 18 = S, bit 19 = T)
//!   [22:20]  width  = 8 << bits  (8 .. 1024 pixels)
//!   [25:23]  height = 8 << bits
//!   [28:26]  format (0..7)
//!   [29]     color-0 transparent (4/16/256-color formats)
//!   [31:30]  texcoord transform mode
//! ```
//!
//! Eight formats:
//!
//! | Code | Name | Bytes/texel | Notes |
//! |---|---|---|---|
//! | 0 | None | 0 | Texture disabled; use vertex color only |
//! | 1 | A3I5 | 1 | top 3 bits = alpha (0..7), low 5 bits = palette index |
//! | 2 | 4-color | 0.25 | 2 bits per texel; palette has 4 colors |
//! | 3 | 16-color | 0.5 | 4 bits per texel; palette has 16 colors |
//! | 4 | 256-color | 1 | 8 bits per texel; palette has 256 colors |
//! | 5 | 4x4 block | 0.25 (avg) | Block compression |
//! | 6 | A5I3 | 1 | top 5 bits = alpha, low 3 bits = palette index |
//! | 7 | Direct color | 2 | BGR555 + alpha bit, no palette |
//!
//! Images come from the VRAM router's texture image window, palettes from its
//! texture palette window.

use vstd::prelude::*;
use crate::bgr555;
use crate::fixed;
use crate::vram;
use crate::vram::{BankState, VramRouter, Window};

verus! {

/// Decoded view of `TEXIMAGE_PARAM`.
#[derive(Debug, Clone, Copy)]
pub struct TexParams {
    pub vram_offset: u32,
    pub width: u32,
    pub height: u32,
    pub format: u8,
    pub color0_transparent: bool,
    pub repeat_s: bool,
    pub repeat_t: bool,
    pub flip_s: bool,
    pub flip_t: bool,
}

/// A texture side of `8 << k` pixels.
pub open spec fn side(k: int) -> u32 {
    if k == 0 {
        8
    } else if k == 1 {
        16
    } else if k == 2 {
        32
    } else if k == 3 {
        64
    } else if k == 4 {
        128
    } else if k == 5 {
        256
    } else if k == 6 {
        512
    } else {
        1024
    }
}

/// The fields of a `TEXIMAGE_PARAM` word.
pub open spec fn params_of(param: u32) -> TexParams {
    TexParams {
        vram_offset: (param as int % 0x1_0000 * 8) as u32,
        repeat_s: fixed::bit(param as int, 0x1_0000),
        repeat_t: fixed::bit(param as int, 0x2_0000),
        flip_s: fixed::bit(param as int, 0x4_0000),
        flip_t: fixed::bit(param as int, 0x8_0000),
        width: side(param as int / 0x10_0000 % 8),
        height: side(param as int / 0x80_0000 % 8),
        format: (param as int / 0x400_0000 % 8) as u8,
        color0_transparent: fixed::bit(param as int, 0x2000_0000),
    }
}

impl TexParams {
    /// The image has at least one pixel and lies within 32-bit addresses.
    pub open spec fn wf(self) -> bool {
        &&& 1 <= self.width <= 0x7FFF_FFFF
        &&& 1 <= self.height <= 0x7FFF_FFFF
        &&& self.vram_offset + 2 * (self.width * self.height) + 2 <= u32::MAX
    }

    pub fn from_register(param: u32) -> (r: Self)
        ensures
            r == params_of(param),
            r.wf(),
    {
        let w: u32 = side_from_field((param / 0x10_0000) % 8);
        let h: u32 = side_from_field((param / 0x80_0000) % 8);
        proof {
            assert(w * h <= 1024 * 1024) by (nonlinear_arith)
                requires
                    8 <= w <= 1024,
                    8 <= h <= 1024,
            ;
        }
        TexParams {
            vram_offset: (param % 0x1_0000) * 8,
            repeat_s: fixed::has_bit(param, 0x1_0000),
            repeat_t: fixed::has_bit(param, 0x2_0000),
            flip_s: fixed::has_bit(param, 0x4_0000),
            flip_t: fixed::has_bit(param, 0x8_0000),
            width: w,
            height: h,
            format: ((param / 0x400_0000) % 8) as u8,
            color0_transparent: fixed::has_bit(param, 0x2000_0000),
        }
    }

    /// Whether there is no texture (format 0 = none).
    pub fn is_disabled(self) -> (r: bool)
        ensures
            r == (self.format == 0),
    {
        self.format == 0
    }
}

fn side_from_field(k: u32) -> (r: u32)
    requires
        k < 8,
    ensures
        r == side(k as int),
        8 <= r <= 1024,
{
    match k {
        0 => 8,
        1 => 16,
        2 => 32,
        3 => 64,
        4 => 128,
        5 => 256,
        6 => 512,
        _ => 1024,
    }
}

/// Where texture coordinate `coord` falls on a side of `size` pixels: clamped
/// to the side, or repeated, every other repetition mirrored where `flip`.
pub open spec fn wrapped(coord: int, size: int, repeat: bool, flip: bool) -> int {
    if !repeat {
        fixed::clamp(coord, 0, size - 1)
    } else if flip && (coord / size) % 2 == 1 {
        size - 1 - coord % size
    } else {
        coord % size
    }
}

/// Wrap or clamp a texture coordinate to the texture's pixel range.
pub fn wrap_coord(coord: i32, size: u32, repeat: bool, flip: bool) -> (r: u32)
    requires
        1 <= size <= 0x7FFF_FFFF,
    ensures
        r == wrapped(coord as int, size as int, repeat, flip),
        r < size,
{
    let c: i64 = coord as i64;
    let s: i64 = size as i64;
    if !repeat {
        return fixed::clamp_i64(c, 0, s - 1) as u32;
    }
    let (q, m): (i64, i64) = if c >= 0 {
        (c / s, c % s)
    } else {
        let a: i64 = -1 - c;
        proof {
            lemma_floor_negative(c as int, s as int);
        }
        (-1 - a / s, s - 1 - a % s)
    };
    assert(q == c as int / s as int && m == c as int % s as int);
    proof {
        vstd::arithmetic::div_mod::lemma_mod_bound(c as int, s as int);
        lemma_quotient_bound(c as int, s as int);
    }
    if flip && (q % 2 == 1 || q % 2 == -1) {
        (s - 1 - m) as u32
    } else {
        m as u32
    }
}

proof fn lemma_quotient_bound(c: int, s: int)
    requires
        s >= 1,
        -0x8000_0000 <= c <= 0x7FFF_FFFF,
    ensures
        -0x8000_0000 <= c / s <= 0x7FFF_FFFF,
{
    assert(-0x8000_0000 <= c / s <= 0x7FFF_FFFF) by (nonlinear_arith)
        requires
            s >= 1,
            -0x8000_0000 <= c <= 0x7FFF_FFFF,
    ;
}

/// Floor division of a negative number through its reflection `-1 - c`.
proof fn lemma_floor_negative(c: int, s: int)
    requires
        c < 0,
        s > 0,
    ensures
        c / s == -1 - (-1 - c) / s,
        c % s == s - 1 - (-1 - c) % s,
        0 <= (-1 - c) / s <= -1 - c,
{
    let a = -1 - c;
    vstd::arithmetic::div_mod::lemma_fundamental_div_mod(a, s);
    vstd::arithmetic::div_mod::lemma_mod_bound(a, s);
    let q = -1 - a / s;
    let r = s - 1 - a % s;
    assert(c == q * s + r) by (nonlinear_arith)
        requires
            a == s * (a / s) + a % s,
            a == -1 - c,
            q == -1 - a / s,
            r == s - 1 - a % s,
    ;
    vstd::arithmetic::div_mod::lemma_fundamental_div_mod_converse(c, s, q, r);
    assert(0 <= a / s <= a) by (nonlinear_arith)
        requires
            a >= 0,
            s > 0,
    ;
}

/// One fetched texel: BGR555 color and alpha factor in `0..=31`, of which 0 is
/// fully transparent and 31 fully opaque.
#[derive(Debug, Clone, Copy, PartialEq, Eq, Structural)]
pub struct Texel {
    pub color: u16,
    pub alpha: u8,
}

/// The fully transparent texel.
pub open spec fn clear_texel() -> Texel {
    Texel { color: 0, alpha: 0 }
}

/// Byte `off` of the texture image.
pub open spec fn image_byte(tp: TexParams, off: int, banks: Seq<BankState>) -> u8 {
    vram::read(banks, Window::TextureImage, (tp.vram_offset + off) as u32)
}

/// The little-endian halfword at `addr` of the texture image window.
pub open spec fn image_u16(addr: int, banks: Seq<BankState>) -> u16 {
    (vram::read(banks, Window::TextureImage, addr as u32) + 256 * vram::read(
        banks,
        Window::TextureImage,
        (addr + 1) as u32,
    )) as u16
}

/// Palette color `idx`. `PLTT_BASE` counts 8-byte units for 4-color textures
/// and 16-byte units for the others.
pub open spec fn palette_color(format: u8, palette_base: u16, idx: int, banks: Seq<BankState>) -> u16 {
    let unit: int = if format == 2 { 8 } else { 16 };
    vram::read_u16(banks, Window::TexturePalette, (palette_base * unit + idx * 2) as u32)
}

/// A texel of a paletted format: index 0 can be transparent.
pub open spec fn paletted(tp: TexParams, idx: int, palette_base: u16, banks: Seq<BankState>) -> Texel {
    if idx == 0 && tp.color0_transparent {
        clear_texel()
    } else {
        Texel { color: bgr555::rgb(palette_color(tp.format, palette_base, idx, banks)), alpha: 31 }
    }
}

/// The two bits of `byte` at position `2 * k`.
pub open spec fn bit_pair(byte: u8, k: int) -> int {
    if k == 0 {
        byte as int % 4
    } else if k == 1 {
        byte as int / 4 % 4
    } else if k == 2 {
        byte as int / 16 % 4
    } else {
        byte as int / 64
    }
}

/// Where the palette word of the compressed block at `block_addr` lies: blocks
/// of slots 0 and 2 have theirs in the two halves of slot 1.
pub open spec fn block_param_addr(block_addr: int) -> Option<int> {
    if block_addr / 0x2_0000 == 0 {
        Some(0x2_0000 + block_addr % 0x2_0000 / 2)
    } else if block_addr / 0x2_0000 == 2 {
        Some(0x3_0000 + block_addr % 0x2_0000 / 2)
    } else {
        None
    }
}

/// Weighted mean of two channels.
pub open spec fn mean(a: int, b: int, wa: int, wb: int) -> int {
    fixed::min((a * wa + b * wb) / (wa + wb), 31)
}

/// Weighted mean of two colors, channel by channel.
pub open spec fn mean_color(a: u16, b: u16, wa: int, wb: int) -> u16 {
    bgr555::pack(
        mean(bgr555::red(a), bgr555::red(b), wa, wb),
        mean(bgr555::green(a), bgr555::green(b), wa, wb),
        mean(bgr555::blue(a), bgr555::blue(b), wa, wb),
    )
}

/// Color `k` of a compressed block whose palette starts at `pal_addr`.
pub open spec fn block_color(pal_addr: int, k: int, banks: Seq<BankState>) -> u16 {
    bgr555::rgb(vram::read_u16(banks, Window::TexturePalette, (pal_addr + 2 * k) as u32))
}

/// A texel of the 4x4 block format.
pub open spec fn block_texel(
    tp: TexParams,
    u: int,
    v: int,
    palette_base: u16,
    banks: Seq<BankState>,
) -> Texel {
    let block = (v / 4) * fixed::max(tp.width as int / 4, 1) + u / 4;
    let idx = bit_pair(image_byte(tp, block * 4 + v % 4, banks), u % 4);
    match block_param_addr(tp.vram_offset + block * 4) {
        None => clear_texel(),
        Some(at) => {
            let param = image_u16(at, banks);
            let mode = param as int / 0x4000;
            let pal = palette_base * 16 + param as int % 0x4000 * 4;
            let c0 = block_color(pal, 0, banks);
            let c1 = block_color(pal, 1, banks);
            if idx == 0 {
                Texel { color: c0, alpha: 31 }
            } else if idx == 1 {
                Texel { color: c1, alpha: 31 }
            } else if idx == 2 {
                if mode == 1 {
                    Texel { color: mean_color(c0, c1, 1, 1), alpha: 31 }
                } else if mode == 3 {
                    Texel { color: mean_color(c0, c1, 5, 3), alpha: 31 }
                } else {
                    Texel { color: block_color(pal, 2, banks), alpha: 31 }
                }
            } else {
                if mode == 2 {
                    Texel { color: block_color(pal, 3, banks), alpha: 31 }
                } else if mode == 3 {
                    Texel { color: mean_color(c0, c1, 3, 5), alpha: 31 }
                } else {
                    clear_texel()
                }
            }
        },
    }
}

/// Texel number `idx` of an image that is stored texel by texel.
pub open spec fn linear_texel(
    tp: TexParams,
    idx: int,
    palette_base: u16,
    banks: Seq<BankState>,
) -> Texel {
    if tp.format == 1 {
        let byte = image_byte(tp, idx, banks);
        let a3 = byte as int / 32;
        Texel {
            color: bgr555::rgb(palette_color(tp.format, palette_base, byte as int % 32, banks)),
            alpha: (a3 * 4 + a3 / 2) as u8,
        }
    } else if tp.format == 2 {
        paletted(tp, bit_pair(image_byte(tp, idx / 4, banks), idx % 4), palette_base, banks)
    } else if tp.format == 3 {
        let byte = image_byte(tp, idx / 2, banks);
        let nibble = if idx % 2 == 1 { byte as int / 16 } else { byte as int % 16 };
        paletted(tp, nibble, palette_base, banks)
    } else if tp.format == 4 {
        paletted(tp, image_byte(tp, idx, banks) as int, palette_base, banks)
    } else if tp.format == 6 {
        let byte = image_byte(tp, idx, banks);
        Texel {
            color: bgr555::rgb(palette_color(tp.format, palette_base, byte as int % 8, banks)),
            alpha: (byte as int / 8) as u8,
        }
    } else if tp.format == 7 {
        let word = image_u16(tp.vram_offset + idx * 2, banks);
        Texel { color: bgr555::rgb(word), alpha: if bgr555::written(word) { 31 } else { 0 } }
    } else {
        clear_texel()
    }
}

/// The texel at texture-space `(u, v)`.
pub open spec fn texel_at(
    tp: TexParams,
    u: int,
    v: int,
    palette_base: u16,
    banks: Seq<BankState>,
) -> Texel {
    let su = wrapped(u, tp.width as int, tp.repeat_s, tp.flip_s);
    let tv = wrapped(v, tp.height as int, tp.repeat_t, tp.flip_t);
    if tp.format == 5 {
        block_texel(tp, su, tv, palette_base, banks)
    } else {
        linear_texel(tp, tv * tp.width + su, palette_base, banks)
    }
}

/// Every texel has alpha at most 31 and a color of 15 bits.
pub proof fn law_texel_range(
    tp: TexParams,
    u: int,
    v: int,
    palette_base: u16,
    banks: Seq<BankState>,
)
    ensures
        texel_at(tp, u, v, palette_base, banks).alpha <= 31,
        texel_at(tp, u, v, palette_base, banks).color < 0x8000,
{
    let su = wrapped(u, tp.width as int, tp.repeat_s, tp.flip_s);
    let tv = wrapped(v, tp.height as int, tp.repeat_t, tp.flip_t);
    if tp.format == 5 {
        lemma_block_texel_range(tp, su, tv, palette_base, banks);
    } else {
        lemma_linear_texel_range(tp, tv * tp.width + su, palette_base, banks);
    }
}

proof fn lemma_linear_texel_range(
    tp: TexParams,
    idx: int,
    palette_base: u16,
    banks: Seq<BankState>,
)
    ensures
        linear_texel(tp, idx, palette_base, banks).alpha <= 31,
        linear_texel(tp, idx, palette_base, banks).color < 0x8000,
{
}

proof fn lemma_mean_range(a: u16, b: u16, wa: int, wb: int)
    requires
        (wa == 1 && wb == 1) || (wa == 5 && wb == 3) || (wa == 3 && wb == 5),
    ensures
        mean_color(a, b, wa, wb) < 0x8000,
{
    assert(0 <= mean(bgr555::red(a), bgr555::red(b), wa, wb) <= 31);
    assert(0 <= mean(bgr555::green(a), bgr555::green(b), wa, wb) <= 31);
    assert(0 <= mean(bgr555::blue(a), bgr555::blue(b), wa, wb) <= 31);
}

proof fn lemma_block_texel_range(
    tp: TexParams,
    u: int,
    v: int,
    palette_base: u16,
    banks: Seq<BankState>,
)
    ensures
        block_texel(tp, u, v, palette_base, banks).alpha <= 31,
        block_texel(tp, u, v, palette_base, banks).color < 0x8000,
{
    let block = (v / 4) * fixed::max(tp.width as int / 4, 1) + u / 4;
    if let Some(at) = block_param_addr(tp.vram_offset + block * 4) {
        let param = image_u16(at, banks);
        let pal = palette_base * 16 + param as int % 0x4000 * 4;
        let c0 = block_color(pal, 0, banks);
        let c1 = block_color(pal, 1, banks);
        lemma_mean_range(c0, c1, 1, 1);
        lemma_mean_range(c0, c1, 5, 3);
        lemma_mean_range(c0, c1, 3, 5);
    }
}

/// Sample one texel at integer texture-space `(u, v)`. The caller is
/// responsible for perspective-correcting `u` and `v`.
pub fn sample(tp: TexParams, u: i32, v: i32, palette_base: u16, vram: &VramRouter) -> (r: Texel)
    requires
        tp.wf(),
        vram.wf(),
    ensures
        r == texel_at(tp, u as int, v as int, palette_base, vram@),
        r.alpha <= 31,
        r.color < 0x8000,
{
    proof {
        law_texel_range(tp, u as int, v as int, palette_base, vram@);
    }
    if tp.is_disabled() {
        return Texel { color: 0, alpha: 0 };
    }
    let su: u32 = wrap_coord(u, tp.width, tp.repeat_s, tp.flip_s);
    let tv: u32 = wrap_coord(v, tp.height, tp.repeat_t, tp.flip_t);
    proof {
        assert(0 <= tv * tp.width && tv * tp.width + su < tp.width * tp.height) by (nonlinear_arith)
            requires
                tv < tp.height,
                su < tp.width,
        ;
    }
    let pixel_idx: u32 = tv * tp.width + su;

    match tp.format {
        1 => sample_a3i5(tp, pixel_idx, palette_base, vram),
        2 => sample_4color(tp, pixel_idx, palette_base, vram),
        3 => sample_16color(tp, pixel_idx, palette_base, vram),
        4 => sample_256color(tp, pixel_idx, palette_base, vram),
        5 => sample_block_compressed(tp, su, tv, palette_base, vram),
        6 => sample_a5i3(tp, pixel_idx, palette_base, vram),
        7 => sample_direct(tp, pixel_idx, vram),
        _ => Texel { color: 0, alpha: 0 },
    }
}

fn read_pal_entry(format: u8, palette_base: u16, idx: u32, vram: &VramRouter) -> (r: u16)
    requires
        idx < 256,
        vram.wf(),
    ensures
        r == palette_color(format, palette_base, idx as int, vram@),
{
    let base: u32 = palette_base as u32;
    let addr: u32 = match format {
        2 => base * 8 + idx * 2,
        _ => base * 16 + idx * 2,
    };
    vram.read_texture_palette_u16(addr)
}

fn read_image_byte(tp: TexParams, byte_off: u32, vram: &VramRouter) -> (r: u8)
    requires
        tp.vram_offset + byte_off <= u32::MAX,
        vram.wf(),
    ensures
        r == image_byte(tp, byte_off as int, vram@),
{
    vram.read_texture_image(tp.vram_offset + byte_off)
}

/// The little-endian halfword at `addr` of the texture image window.
pub fn read_image_u16(vram: &VramRouter, addr: u32) -> (r: u16)
    requires
        addr < u32::MAX,
        vram.wf(),
    ensures
        r == image_u16(addr as int, vram@),
{
    let lo: u16 = vram.read_texture_image(addr) as u16;
    let hi: u16 = vram.read_texture_image(addr + 1) as u16;
    lo + 256 * hi
}

fn sample_a3i5(tp: TexParams, idx: u32, palette_base: u16, vram: &VramRouter) -> (r: Texel)
    requires
        tp.vram_offset + idx <= u32::MAX,
        vram.wf(),
    ensures
        ({
            let byte = image_byte(tp, idx as int, vram@);
            let a3 = byte as int / 32;
            r == (Texel {
                color: bgr555::rgb(palette_color(tp.format, palette_base, byte as int % 32, vram@)),
                alpha: (a3 * 4 + a3 / 2) as u8,
            })
        }),
{
    let byte: u8 = read_image_byte(tp, idx, vram);
    let alpha3: u8 = byte / 32;
    let color: u16 = read_pal_entry(tp.format, palette_base, (byte % 32) as u32, vram);
    Texel { color: color % 0x8000, alpha: alpha3 * 4 + alpha3 / 2 }
}

fn sample_a5i3(tp: TexParams, idx: u32, palette_base: u16, vram: &VramRouter) -> (r: Texel)
    requires
        tp.vram_offset + idx <= u32::MAX,
        vram.wf(),
    ensures
        ({
            let byte = image_byte(tp, idx as int, vram@);
            r == (Texel {
                color: bgr555::rgb(palette_color(tp.format, palette_base, byte as int % 8, vram@)),
                alpha: (byte as int / 8) as u8,
            })
        }),
{
    let byte: u8 = read_image_byte(tp, idx, vram);
    let color: u16 = read_pal_entry(tp.format, palette_base, (byte % 8) as u32, vram);
    Texel { color: color % 0x8000, alpha: byte / 8 }
}

fn bit_pair_of(byte: u8, k: u32) -> (r: u32)
    requires
        k < 4,
    ensures
        r == bit_pair(byte, k as int),
        r < 4,
{
    match k {
        0 => (byte % 4) as u32,
        1 => ((byte / 4) % 4) as u32,
        2 => ((byte / 16) % 4) as u32,
        _ => (byte / 64) as u32,
    }
}

fn sample_4color(tp: TexParams, idx: u32, palette_base: u16, vram: &VramRouter) -> (r: Texel)
    requires
        tp.vram_offset + idx <= u32::MAX,
        vram.wf(),
    ensures
        r == paletted(
            tp,
            bit_pair(image_byte(tp, idx as int / 4, vram@), idx as int % 4),
            palette_base,
            vram@,
        ),
{
    let byte: u8 = read_image_byte(tp, idx / 4, vram);
    palette_sample(tp, bit_pair_of(byte, idx % 4), palette_base, vram)
}

fn sample_16color(tp: TexParams, idx: u32, palette_base: u16, vram: &VramRouter) -> (r: Texel)
    requires
        tp.vram_offset + idx <= u32::MAX,
        vram.wf(),
    ensures
        ({
            let byte = image_byte(tp, idx as int / 2, vram@);
            let nibble = if idx % 2 == 1 { byte as int / 16 } else { byte as int % 16 };
            r == paletted(tp, nibble, palette_base, vram@)
        }),
{
    let byte: u8 = read_image_byte(tp, idx / 2, vram);
    let palidx: u32 = if idx % 2 == 1 {
        (byte / 16) as u32
    } else {
        (byte % 16) as u32
    };
    palette_sample(tp, palidx, palette_base, vram)
}

fn sample_256color(tp: TexParams, idx: u32, palette_base: u16, vram: &VramRouter) -> (r: Texel)
    requires
        tp.vram_offset + idx <= u32::MAX,
        vram.wf(),
    ensures
        r == paletted(tp, image_byte(tp, idx as int, vram@) as int, palette_base, vram@),
{
    let palidx: u32 = read_image_byte(tp, idx, vram) as u32;
    palette_sample(tp, palidx, palette_base, vram)
}

fn palette_sample(tp: TexParams, palidx: u32, palette_base: u16, vram: &VramRouter) -> (r: Texel)
    requires
        palidx < 256,
        vram.wf(),
    ensures
        r == paletted(tp, palidx as int, palette_base, vram@),
{
    if palidx == 0 && tp.color0_transparent {
        Texel { color: 0, alpha: 0 }
    } else {
        Texel {
            color: read_pal_entry(tp.format, palette_base, palidx, vram) % 0x8000,
            alpha: 31,
        }
    }
}

fn sample_direct(tp: TexParams, idx: u32, vram: &VramRouter) -> (r: Texel)
    requires
        tp.vram_offset + idx * 2 < u32::MAX,
        vram.wf(),
    ensures
        ({
            let word = image_u16(tp.vram_offset + idx * 2, vram@);
            r == (Texel {
                color: bgr555::rgb(word),
                alpha: if bgr555::written(word) { 31 } else { 0 },
            })
        }),
{
    let v: u16 = read_image_u16(vram, tp.vram_offset + idx * 2);
    Texel { color: v % 0x8000, alpha: if v >= 0x8000 { 31 } else { 0 } }
}

fn sample_block_compressed(
    tp: TexParams,
    u: u32,
    v: u32,
    palette_base: u16,
    vram: &VramRouter,
) -> (r: Texel)
    requires
        tp.wf(),
        u < tp.width,
        v < tp.height,
        vram.wf(),
    ensures
        r == block_texel(tp, u as int, v as int, palette_base, vram@),
{
    let quarter: u32 = tp.width / 4;
    let blocks_per_row: u32 = if quarter > 1 { quarter } else { 1 };
    let block_x: u32 = u / 4;
    let block_y: u32 = v / 4;
    proof {
        lemma_block_bound(
            tp.width as int,
            tp.height as int,
            u as int,
            v as int,
            blocks_per_row as int,
        );
    }
    let block_idx: u32 = block_y * blocks_per_row + block_x;
    let block_addr: u32 = tp.vram_offset + block_idx * 4;
    let byte: u8 = read_image_byte(tp, block_idx * 4 + v % 4, vram);
    let idx: u32 = bit_pair_of(byte, u % 4);

    let param_addr: u32 = match compressed_palette_param_addr(block_addr) {
        Some(at) => at,
        None => {
            return Texel { color: 0, alpha: 0 };
        },
    };
    let param: u16 = read_image_u16(vram, param_addr);
    let pal_off: u32 = (param % 0x4000) as u32;
    let mode: u8 = (param / 0x4000) as u8;
    let pal_addr: u32 = palette_base as u32 * 16 + pal_off * 4;

    let c0: u16 = vram.read_texture_palette_u16(pal_addr) % 0x8000;
    let c1: u16 = vram.read_texture_palette_u16(pal_addr + 2) % 0x8000;
    let c2: u16 = vram.read_texture_palette_u16(pal_addr + 4) % 0x8000;
    let c3: u16 = vram.read_texture_palette_u16(pal_addr + 6) % 0x8000;

    match (mode, idx) {
        (0 | 1, 3) => Texel { color: 0, alpha: 0 },
        (_, 0) => Texel { color: c0, alpha: 31 },
        (_, 1) => Texel { color: c1, alpha: 31 },
        (0 | 2, 2) => Texel { color: c2, alpha: 31 },
        (2, 3) => Texel { color: c3, alpha: 31 },
        (1, 2) => Texel { color: average_color(c0, c1, 1, 1), alpha: 31 },
        (3, 2) => Texel { color: average_color(c0, c1, 5, 3), alpha: 31 },
        (3, 3) => Texel { color: average_color(c0, c1, 3, 5), alpha: 31 },
        _ => Texel { color: 0, alpha: 0 },
    }
}

/// The bytes of a block lie within the image's pixel count plus two.
proof fn lemma_block_bound(w: int, h: int, u: int, v: int, row: int)
    requires
        0 <= u < w,
        0 <= v < h,
        row == fixed::max(w / 4, 1),
    ensures
        0 <= (v / 4) * row,
        4 * ((v / 4) * row + u / 4) < w * h,
{
    let by = v / 4;
    assert(4 * (by * row) <= (h - 1) * w) by (nonlinear_arith)
        requires
            4 * by <= h - 1,
            0 <= by,
            1 <= row <= w,
            h >= 1,
    ;
    assert((h - 1) * w + w == w * h) by (nonlinear_arith);
    assert(0 <= by * row) by (nonlinear_arith)
        requires
            0 <= by,
            1 <= row,
    ;
}

fn compressed_palette_param_addr(block_addr: u32) -> (r: Option<u32>)
    ensures
        match r {
            Some(at) => block_param_addr(block_addr as int) == Some(at as int) && at < 0x4_0000,
            None => block_param_addr(block_addr as int) is None,
        },
{
    let rel: u32 = block_addr % 0x2_0000;
    match block_addr / 0x2_0000 {
        0 => Some(0x2_0000 + rel / 2),
        2 => Some(0x3_0000 + rel / 2),
        _ => None,
    }
}

fn average_color(a: u16, b: u16, wa: u32, wb: u32) -> (r: u16)
    requires
        1 <= wa <= 8,
        1 <= wb <= 8,
    ensures
        r == mean_color(a, b, wa as int, wb as int),
{
    let (ar, ag, ab): (u32, u32, u32) = bgr555::channels(a);
    let (br, bg, bb): (u32, u32, u32) = bgr555::channels(b);
    bgr555::make(
        average_channel(ar, br, wa, wb),
        average_channel(ag, bg, wa, wb),
        average_channel(ab, bb, wa, wb),
    )
}

fn average_channel(a: u32, b: u32, wa: u32, wb: u32) -> (r: u32)
    requires
        a <= 31,
        b <= 31,
        1 <= wa <= 8,
        1 <= wb <= 8,
    ensures
        r == mean(a as int, b as int, wa as int, wb as int),
        r <= 31,
{
    proof {
        assert(0 <= a * wa <= 248 && 0 <= b * wb <= 248) by (nonlinear_arith)
            requires
                a <= 31,
                b <= 31,
                wa <= 8,
                wb <= 8,
        ;
    }
    let m: u32 = (a * wa + b * wb) / (wa + wb);
    if m < 31 {
        m
    } else {
        31
    }
}

/// A 5-bit level widened to 6 bits: 0 stays 0, others become `2v + 1`.
pub open spec fn widen(v: int) -> int {
    if v == 0 { 0 } else { 2 * v + 1 }
}

/// A 6-bit level narrowed to 5 bits.
pub open spec fn narrow(v: int) -> int {
    fixed::min(v / 2, 31)
}

/// Product of two 5-bit levels, computed in 6 bits.
pub open spec fn modulated(a: int, b: int) -> int {
    narrow(((widen(a) + 1) * (widen(b) + 1) - 1) / 64)
}

/// Mix of two 5-bit levels by a 5-bit ratio, computed in 6 bits.
pub open spec fn mixed(texel: int, vertex: int, alpha: int) -> int {
    narrow((widen(texel) * widen(alpha) + widen(vertex) * (63 - widen(alpha))) / 64)
}

/// The color and alpha of a fragment from its texel and its vertex color, for
/// polygon mode `mode`: 0 and 2 modulate, 1 applies the texel as a decal,
/// others keep the vertex color.
pub open spec fn combined(texel: Texel, vertex_color: u16, mode: int) -> (u16, u8) {
    if mode == 0 || mode == 2 {
        if texel.alpha == 0 {
            (0u16, 0u8)
        } else {
            (
                bgr555::pack(
                    modulated(bgr555::red(texel.color), bgr555::red(vertex_color)),
                    modulated(bgr555::green(texel.color), bgr555::green(vertex_color)),
                    modulated(bgr555::blue(texel.color), bgr555::blue(vertex_color)),
                ),
                texel.alpha,
            )
        }
    } else if mode == 1 {
        if texel.alpha == 0 {
            (bgr555::rgb(vertex_color), 31u8)
        } else if texel.alpha == 31 {
            (bgr555::rgb(texel.color), 31u8)
        } else {
            (
                bgr555::pack(
                    mixed(bgr555::red(texel.color), bgr555::red(vertex_color), texel.alpha as int),
                    mixed(
                        bgr555::green(texel.color),
                        bgr555::green(vertex_color),
                        texel.alpha as int,
                    ),
                    mixed(bgr555::blue(texel.color), bgr555::blue(vertex_color), texel.alpha as int),
                ),
                31u8,
            )
        }
    } else {
        (vertex_color, 31u8)
    }
}

/// Combine a per-vertex (interpolated) color with a fetched texel per the
/// polygon's blend mode (`POLYGON_ATTR.mode`, bits 4-5).
///
/// | Mode | Name | Combine rule |
/// |---|---|---|
/// | 0 | Modulate | result = expanded 6-bit texel * vertex |
/// | 1 | Decal | result = expanded 6-bit a * texel + (1 - a) * vertex |
/// | 2 | Toon / highlight | the rasterizer applies the toon table |
/// | 3 | Shadow | vertex color |
pub fn combine_with_vertex(texel: Texel, vertex_color: u16, mode: u8) -> (r: (u16, u8))
    requires
        mode == 1 ==> texel.alpha <= 31,
    ensures
        r == combined(texel, vertex_color, mode as int),
{
    let (tr, tg, tb): (u32, u32, u32) = bgr555::channels(texel.color);
    let (vr, vg, vb): (u32, u32, u32) = bgr555::channels(vertex_color);
    match mode {
        0 | 2 => {
            if texel.alpha == 0 {
                return (0, 0);
            }
            let r: u32 = modulate_level(tr, vr);
            let g: u32 = modulate_level(tg, vg);
            let b: u32 = modulate_level(tb, vb);
            (bgr555::make(r, g, b), texel.alpha)
        },
        1 => {
            // Decal keeps polygon alpha; texel alpha only controls color mix.
            if texel.alpha == 0 {
                return (vertex_color % 0x8000, 31);
            }
            if texel.alpha == 31 {
                return (texel.color % 0x8000, 31);
            }
            let r: u32 = decal_channel(tr, vr, texel.alpha);
            let g: u32 = decal_channel(tg, vg, texel.alpha);
            let b: u32 = decal_channel(tb, vb, texel.alpha);
            (bgr555::make(r, g, b), 31)
        },
        _ => (vertex_color, 31),
    }
}

/// Widen a level to 6 bits.
pub fn expand_5_to_6(v: u32) -> (r: u32)
    requires
        v <= 255,
    ensures
        r == widen(v as int),
{
    if v == 0 {
        0
    } else {
        v * 2 + 1
    }
}

/// Narrow a level to 5 bits.
pub fn shrink_6_to_5(v: u32) -> (r: u32)
    ensures
        r == narrow(v as int),
        r <= 31,
{
    let half: u32 = v / 2;
    if half < 31 {
        half
    } else {
        31
    }
}

/// Product of two levels in 6-bit precision.
pub fn modulate_level(a: u32, b: u32) -> (r: u32)
    requires
        a <= 255,
        b <= 255,
    ensures
        r == modulated(a as int, b as int),
        r <= 31,
{
    let t: u32 = expand_5_to_6(a);
    let v: u32 = expand_5_to_6(b);
    proof {
        assert(1 <= (t + 1) * (v + 1) <= 512 * 512) by (nonlinear_arith)
            requires
                0 <= t <= 511,
                0 <= v <= 511,
        ;
    }
    shrink_6_to_5(((t + 1) * (v + 1) - 1) / 64)
}

fn decal_channel(texel: u32, vertex: u32, alpha: u8) -> (r: u32)
    requires
        texel <= 31,
        vertex <= 31,
        alpha <= 31,
    ensures
        r == mixed(texel as int, vertex as int, alpha as int),
        r <= 31,
{
    let t: u32 = expand_5_to_6(texel);
    let v: u32 = expand_5_to_6(vertex);
    let a: u32 = expand_5_to_6(alpha as u32);
    proof {
        assert(0 <= t * a <= 63 * 63 && 0 <= v * (63 - a) <= 63 * 63) by (nonlinear_arith)
            requires
                0 <= t <= 63,
                0 <= v <= 63,
                0 <= a <= 63,
        ;
    }
    shrink_6_to_5((t * a + v * (63 - a)) / 64)
}

/// A coordinate within the side is its own place.
proof fn lemma_wrapped_inside(coord: int, size: int, repeat: bool, flip: bool)
    requires
        0 <= coord < size,
    ensures
        wrapped(coord, size, repeat, flip) == coord,
{
    vstd::arithmetic::div_mod::lemma_small_mod(coord as nat, size as nat);
    vstd::arithmetic::div_mod::lemma_basic_div(coord, size);
}

/// `TEXIMAGE_PARAM` holds, from the lowest bit up: the image's place in units of
/// 8 bytes, repeat S, repeat T, flip S, flip T, the two sides as powers of two
/// from 8 pixels on, the format, and whether color 0 is transparent.
pub proof fn law_param_fields(
    place: int,
    repeat_s: bool,
    repeat_t: bool,
    flip_s: bool,
    flip_t: bool,
    w: int,
    h: int,
    format: int,
    clear0: bool,
    transform: int,
)
    requires
        0 <= place < 0x1_0000,
        0 <= w < 8,
        0 <= h < 8,
        0 <= format < 8,
        0 <= transform < 4,
    ensures
        ({
            let word = (place + (if repeat_s { 0x1_0000int } else { 0 }) + (if repeat_t {
                0x2_0000int
            } else {
                0
            }) + (if flip_s { 0x4_0000int } else { 0 }) + (if flip_t { 0x8_0000int } else { 0 }) + w
                * 0x10_0000 + h * 0x80_0000 + format * 0x400_0000 + (if clear0 {
                0x2000_0000int
            } else {
                0
            }) + transform * 0x4000_0000) as u32;
            let p = params_of(word);
            &&& p.vram_offset == place * 8
            &&& p.repeat_s == repeat_s && p.repeat_t == repeat_t
            &&& p.flip_s == flip_s && p.flip_t == flip_t
            &&& p.format == format
            &&& p.color0_transparent == clear0
            &&& w == 0 ==> p.width == 8
            &&& h == 0 ==> p.height == 8
            &&& w > 0 ==> p.width == 2 * side(w - 1)
            &&& h > 0 ==> p.height == 2 * side(h - 1)
            &&& w == h ==> p.width == p.height
        }),
{
    let rs: int = if repeat_s { 1 } else { 0 };
    let rt: int = if repeat_t { 1 } else { 0 };
    let fs: int = if flip_s { 1 } else { 0 };
    let ft: int = if flip_t { 1 } else { 0 };
    let c0: int = if clear0 { 1 } else { 0 };
    lemma_param_word(place, rs, rt, fs, ft, w, h, format, c0, transform);
}

/// The fields of a parameter word, one after the other.
proof fn lemma_param_word(
    place: int,
    rs: int,
    rt: int,
    fs: int,
    ft: int,
    w: int,
    h: int,
    format: int,
    c0: int,
    transform: int,
)
    requires
        0 <= place < 0x1_0000,
        0 <= rs < 2,
        0 <= rt < 2,
        0 <= fs < 2,
        0 <= ft < 2,
        0 <= w < 8,
        0 <= h < 8,
        0 <= format < 8,
        0 <= c0 < 2,
        0 <= transform < 4,
    ensures
        ({
            let x = place + rs * 0x1_0000 + rt * 0x2_0000 + fs * 0x4_0000 + ft * 0x8_0000 + w
                * 0x10_0000 + h * 0x80_0000 + format * 0x400_0000 + c0 * 0x2000_0000 + transform
                * 0x4000_0000;
            &&& 0 <= x <= u32::MAX
            &&& x % 0x1_0000 == place
            &&& x / 0x1_0000 % 2 == rs
            &&& x / 0x2_0000 % 2 == rt
            &&& x / 0x4_0000 % 2 == fs
            &&& x / 0x8_0000 % 2 == ft
            &&& x / 0x10_0000 % 8 == w
            &&& x / 0x80_0000 % 8 == h
            &&& x / 0x400_0000 % 8 == format
            &&& x / 0x2000_0000 % 2 == c0
        }),
{
    let x8 = c0 + 2 * transform;
    let x7 = format + 8 * x8;
    let x6 = h + 8 * x7;
    let x5 = w + 8 * x6;
    let x4 = ft + 2 * x5;
    let x3 = fs + 2 * x4;
    let x2 = rt + 2 * x3;
    let x1 = rs + 2 * x2;
    let x = place + 0x1_0000 * x1;
    fixed::lemma_low_field(x, place, x1, 0x1_0000);
    fixed::lemma_low_field(x1, rs, x2, 2);
    fixed::lemma_low_field(x2, rt, x3, 2);
    fixed::lemma_low_field(x3, fs, x4, 2);
    fixed::lemma_low_field(x4, ft, x5, 2);
    fixed::lemma_low_field(x5, w, x6, 8);
    fixed::lemma_low_field(x6, h, x7, 8);
    fixed::lemma_low_field(x7, format, x8, 8);
    fixed::lemma_low_field(x8, c0, transform, 2);
    vstd::arithmetic::div_mod::lemma_div_denominator(x, 0x1_0000, 2);
    vstd::arithmetic::div_mod::lemma_div_denominator(x, 0x2_0000, 2);
    vstd::arithmetic::div_mod::lemma_div_denominator(x, 0x4_0000, 2);
    vstd::arithmetic::div_mod::lemma_div_denominator(x, 0x8_0000, 2);
    vstd::arithmetic::div_mod::lemma_div_denominator(x, 0x10_0000, 8);
    vstd::arithmetic::div_mod::lemma_div_denominator(x, 0x80_0000, 8);
    vstd::arithmetic::div_mod::lemma_div_denominator(x, 0x400_0000, 8);
}

/// Beside the image a texture that does not repeat shows its border, in each
/// direction on its own.
pub proof fn law_border_is_stretched(
    tp: TexParams,
    u: int,
    v: int,
    palette_base: u16,
    banks: Seq<BankState>,
)
    requires
        tp.wf(),
    ensures
        !tp.repeat_s && u < 0 ==> texel_at(tp, u, v, palette_base, banks) == texel_at(
            tp,
            0,
            v,
            palette_base,
            banks,
        ),
        !tp.repeat_s && u >= tp.width ==> texel_at(tp, u, v, palette_base, banks) == texel_at(
            tp,
            tp.width - 1,
            v,
            palette_base,
            banks,
        ),
        !tp.repeat_t && v < 0 ==> texel_at(tp, u, v, palette_base, banks) == texel_at(
            tp,
            u,
            0,
            palette_base,
            banks,
        ),
        !tp.repeat_t && v >= tp.height ==> texel_at(tp, u, v, palette_base, banks) == texel_at(
            tp,
            u,
            tp.height - 1,
            palette_base,
            banks,
        ),
{
}

proof fn lemma_wrapped_shift(coord: int, size: int, flip: bool)
    requires
        size >= 1,
    ensures
        !flip ==> wrapped(coord + size, size, true, flip) == wrapped(coord, size, true, flip),
        wrapped(coord + 2 * size, size, true, flip) == wrapped(coord, size, true, flip),
        flip ==> wrapped(-1 - coord, size, true, flip) == wrapped(coord, size, true, flip),
        flip ==> wrapped(coord + size, size, true, flip) == size - 1 - wrapped(
            coord,
            size,
            true,
            flip,
        ),
{
    let q = coord / size;
    let r = coord % size;
    vstd::arithmetic::div_mod::lemma_fundamental_div_mod(coord, size);
    vstd::arithmetic::div_mod::lemma_mod_bound(coord, size);
    assert(coord + size == size * (q + 1) + r) by (nonlinear_arith)
        requires
            coord == size * q + r,
    ;
    assert(coord + 2 * size == size * (q + 2) + r) by (nonlinear_arith)
        requires
            coord == size * q + r,
    ;
    assert(-1 - coord == size * (-1 - q) + (size - 1 - r)) by (nonlinear_arith)
        requires
            coord == size * q + r,
    ;
    vstd::arithmetic::div_mod::lemma_fundamental_div_mod_converse(coord + size, size, q + 1, r);
    vstd::arithmetic::div_mod::lemma_fundamental_div_mod_converse(coord + 2 * size, size, q + 2, r);
    vstd::arithmetic::div_mod::lemma_fundamental_div_mod_converse(
        -1 - coord,
        size,
        -1 - q,
        size - 1 - r,
    );
}

/// A repeating texture has its size as period, or twice its size where it flips:
/// then each repetition is the mirror image of the one before.
pub proof fn law_repetition_and_mirror(
    tp: TexParams,
    u: int,
    v: int,
    palette_base: u16,
    banks: Seq<BankState>,
)
    requires
        tp.wf(),
    ensures
        tp.repeat_s && !tp.flip_s ==> texel_at(tp, u + tp.width, v, palette_base, banks)
            == texel_at(tp, u, v, palette_base, banks),
        tp.repeat_t && !tp.flip_t ==> texel_at(tp, u, v + tp.height, palette_base, banks)
            == texel_at(tp, u, v, palette_base, banks),
        tp.repeat_s && tp.flip_s ==> texel_at(tp, -1 - u, v, palette_base, banks) == texel_at(
            tp,
            u,
            v,
            palette_base,
            banks,
        ),
        tp.repeat_t && tp.flip_t ==> texel_at(tp, u, -1 - v, palette_base, banks) == texel_at(
            tp,
            u,
            v,
            palette_base,
            banks,
        ),
        tp.repeat_s ==> texel_at(tp, u + 2 * tp.width, v, palette_base, banks) == texel_at(
            tp,
            u,
            v,
            palette_base,
            banks,
        ),
        tp.repeat_t ==> texel_at(tp, u, v + 2 * tp.height, palette_base, banks) == texel_at(
            tp,
            u,
            v,
            palette_base,
            banks,
        ),
{
    lemma_wrapped_shift(u, tp.width as int, tp.flip_s);
    lemma_wrapped_shift(v, tp.height as int, tp.flip_t);
}

/// A direct-color image is stored row by row, two bytes to a texel, low byte
/// first; the top bit says whether the texel is there.
pub proof fn law_direct_color_layout(
    tp: TexParams,
    u: int,
    v: int,
    palette_base: u16,
    banks: Seq<BankState>,
)
    requires
        tp.wf(),
        tp.format == 7,
        0 <= u < tp.width,
        0 <= v < tp.height,
    ensures
        ({
            let at = tp.vram_offset + 2 * (v * tp.width + u);
            let low = vram::read(banks, Window::TextureImage, at as u32);
            let high = vram::read(banks, Window::TextureImage, (at + 1) as u32);
            let t = texel_at(tp, u, v, palette_base, banks);
            &&& t.color == low + 256 * (high % 128)
            &&& t.alpha == if high >= 128 { 31int } else { 0 }
        }),
{
    lemma_wrapped_inside(u, tp.width as int, tp.repeat_s, tp.flip_s);
    lemma_wrapped_inside(v, tp.height as int, tp.repeat_t, tp.flip_t);
}

/// The color of entry `idx` of a palette that starts `start` bytes into the
/// palette window, without bit 15.
pub open spec fn entry_color(start: int, idx: int, banks: Seq<BankState>) -> int {
    let at = start + 2 * idx;
    vram::read(banks, Window::TexturePalette, at as u32) + 256 * (vram::read(
        banks,
        Window::TexturePalette,
        (at + 1) as u32,
    ) % 128)
}

proof fn lemma_halfword(lo: u8, hi: u8)
    ensures
        bgr555::rgb((lo + 256 * hi) as u16) == lo + 256 * (hi % 128),
        bgr555::written((lo + 256 * hi) as u16) == (hi >= 128),
        (lo + 256 * hi) as u16 as int % 0x4000 == lo + 256 * (hi as int % 64),
        (lo + 256 * hi) as u16 as int / 0x4000 == hi as int / 64,
{
}

proof fn lemma_palette_entry(format: u8, palette_base: u16, idx: int, banks: Seq<BankState>)
    requires
        0 <= idx < 256,
    ensures
        bgr555::rgb(palette_color(format, palette_base, idx, banks)) == entry_color(
            palette_base * if format == 2 { 8int } else { 16 },
            idx,
            banks,
        ),
{
    let at = palette_base * (if format == 2 { 8int } else { 16 }) + 2 * idx;
    lemma_entry(at, banks);
}

proof fn lemma_entry(at: int, banks: Seq<BankState>)
    requires
        0 <= at < 0x1000_0000,
        at % 2 == 0,
    ensures
        bgr555::rgb(vram::read_u16(banks, Window::TexturePalette, at as u32)) == entry_color(
            at,
            0,
            banks,
        ),
{
    let a = at as u32;
    assert((a - a % 2) as u32 == a);
    lemma_halfword(
        vram::read(banks, Window::TexturePalette, a),
        vram::read(banks, Window::TexturePalette, (a + 1) as u32),
    );
}

/// Indexed images are stored row by row: 2, 4 or 8 bits to a texel, the first
/// texel of a byte in its lowest bits. The index picks a color of the palette,
/// which starts at 8 bytes times the base for 4 colors and 16 bytes times the base
/// for more; index 0 can stand for nothing.
pub proof fn law_indexed_layout(
    tp: TexParams,
    u: int,
    v: int,
    palette_base: u16,
    banks: Seq<BankState>,
)
    requires
        tp.wf(),
        2 <= tp.format <= 4,
        0 <= u < tp.width,
        0 <= v < tp.height,
    ensures
        ({
            let n = v * tp.width + u;
            let per: int = if tp.format == 2 {
                4
            } else if tp.format == 3 {
                2
            } else {
                1
            };
            let byte = vram::read(banks, Window::TextureImage, (tp.vram_offset + n / per) as u32);
            let idx = if tp.format == 4 {
                byte as int
            } else if tp.format == 3 {
                if n % 2 == 0 {
                    byte as int % 16
                } else {
                    byte as int / 16
                }
            } else if n % 4 == 0 {
                byte as int % 4
            } else if n % 4 == 1 {
                byte as int / 4 % 4
            } else if n % 4 == 2 {
                byte as int / 16 % 4
            } else {
                byte as int / 64
            };
            let start = palette_base * if tp.format == 2 { 8int } else { 16 };
            let t = texel_at(tp, u, v, palette_base, banks);
            if idx == 0 && tp.color0_transparent {
                t.alpha == 0 && t.color == 0
            } else {
                t.alpha == 31 && t.color == entry_color(start, idx, banks)
            }
        }),
{
    let n = v * tp.width + u;
    lemma_wrapped_inside(u, tp.width as int, tp.repeat_s, tp.flip_s);
    lemma_wrapped_inside(v, tp.height as int, tp.repeat_t, tp.flip_t);
    assert(n >= 0) by (nonlinear_arith)
        requires
            n == v * tp.width + u,
            0 <= v,
            0 <= u,
            0 <= tp.width,
    ;
    let per: int = if tp.format == 2 {
        4
    } else if tp.format == 3 {
        2
    } else {
        1
    };
    assert(n / 1 == n);
    let byte = vram::read(banks, Window::TextureImage, (tp.vram_offset + n / per) as u32);
    let idx = if tp.format == 2 {
        bit_pair(byte, n % 4)
    } else if tp.format == 3 {
        if n % 2 == 1 {
            byte as int / 16
        } else {
            byte as int % 16
        }
    } else {
        byte as int
    };
    lemma_palette_entry(tp.format, palette_base, idx, banks);
}

/// The two formats with alpha take one byte to a texel: alpha in the top 3 bits
/// and a 5-bit index, or alpha in the top 5 bits and a 3-bit index. Three bits of
/// alpha `a` are stretched to five, to the level nearest to `31 / 7 * a`.
pub proof fn law_alpha_layout(
    tp: TexParams,
    u: int,
    v: int,
    palette_base: u16,
    banks: Seq<BankState>,
)
    requires
        tp.wf(),
        tp.format == 1 || tp.format == 6,
        0 <= u < tp.width,
        0 <= v < tp.height,
    ensures
        ({
            let byte = vram::read(
                banks,
                Window::TextureImage,
                (tp.vram_offset + v * tp.width + u) as u32,
            );
            let t = texel_at(tp, u, v, palette_base, banks);
            &&& tp.format == 6 ==> t.alpha == byte / 8 && t.color == entry_color(
                palette_base * 16,
                byte as int % 8,
                banks,
            )
            &&& tp.format == 1 ==> -3 <= 7 * t.alpha - 31 * (byte / 32) <= 3 && t.color == entry_color(
                palette_base * 16,
                byte as int % 32,
                banks,
            )
        }),
{
    lemma_wrapped_inside(u, tp.width as int, tp.repeat_s, tp.flip_s);
    lemma_wrapped_inside(v, tp.height as int, tp.repeat_t, tp.flip_t);
    let n = v * tp.width + u;
    let byte = image_byte(tp, n, banks);
    lemma_palette_entry(tp.format, palette_base, byte as int % 8, banks);
    lemma_palette_entry(tp.format, palette_base, byte as int % 32, banks);
    lemma_stretch(byte as int / 32);
}

proof fn lemma_stretch(a: int)
    requires
        0 <= a <= 7,
    ensures
        -3 <= 7 * (a * 4 + a / 2) - 31 * a <= 3,
{
}

/// A block of 4x4 texels takes four bytes, one to a row, two bits to a texel from
/// the left; blocks follow each other along the image. Index 0 and 1 are the first
/// two colors of the block's palette, which the block's word in slot 1 names.
#[verifier::spinoff_prover]
#[verifier::rlimit(80)]
pub proof fn law_block_layout(
    tp: TexParams,
    u: int,
    v: int,
    palette_base: u16,
    banks: Seq<BankState>,
)
    requires
        tp.wf(),
        tp.format == 5,
        tp.width % 4 == 0,
        0 <= u < tp.width,
        0 <= v < tp.height,
    ensures
        ({
            let block = (v / 4) * (tp.width as int / 4) + u / 4;
            let at = tp.vram_offset + 4 * block;
            let byte = vram::read(banks, Window::TextureImage, (at + v % 4) as u32);
            let idx = if u % 4 == 0 {
                byte as int % 4
            } else if u % 4 == 1 {
                byte as int / 4 % 4
            } else if u % 4 == 2 {
                byte as int / 16 % 4
            } else {
                byte as int / 64
            };
            let slot = at / 0x2_0000;
            let info_at = 0x2_0000 + (if slot == 2 { 0x1_0000int } else { 0 }) + at % 0x2_0000 / 2;
            let info = vram::read(banks, Window::TextureImage, info_at as u32) + 256 * vram::read(
                banks,
                Window::TextureImage,
                (info_at + 1) as u32,
            );
            let start = 16 * palette_base + 4 * (info % 0x4000);
            let mode = info / 0x4000;
            let t = texel_at(tp, u, v, palette_base, banks);
            if slot != 0 && slot != 2 {
                t.alpha == 0
            } else {
                &&& t.alpha == if idx == 3 && mode < 2 { 0int } else { 31 }
                &&& idx < 2 ==> t.color == entry_color(start, idx, banks)
                &&& idx == 2 && mode % 2 == 0 ==> t.color == entry_color(start, 2, banks)
                &&& idx == 3 && mode == 2 ==> t.color == entry_color(start, 3, banks)
                &&& idx == 2 && mode == 1 ==> between(
                    t.color as int,
                    entry_color(start, 0, banks),
                    entry_color(start, 1, banks),
                    1,
                    1,
                )
                &&& idx == 2 && mode == 3 ==> between(
                    t.color as int,
                    entry_color(start, 0, banks),
                    entry_color(start, 1, banks),
                    5,
                    3,
                )
                &&& idx == 3 && mode == 3 ==> between(
                    t.color as int,
                    entry_color(start, 0, banks),
                    entry_color(start, 1, banks),
                    3,
                    5,
                )
            }
        }),
{
    lemma_wrapped_inside(u, tp.width as int, tp.repeat_s, tp.flip_s);
    lemma_wrapped_inside(v, tp.height as int, tp.repeat_t, tp.flip_t);
    let block = (v / 4) * (tp.width as int / 4) + u / 4;
    assert(block == (v / 4) * fixed::max(tp.width as int / 4, 1) + u / 4);
    assert(block >= 0) by (nonlinear_arith)
        requires
            block == (v / 4) * (tp.width as int / 4) + u / 4,
            v / 4 >= 0,
            u / 4 >= 0,
            tp.width as int / 4 >= 0,
    ;
    let at = tp.vram_offset + block * 4;
    if let Some(info_at) = block_param_addr(at) {
        let info = image_u16(info_at, banks);
        let start = palette_base * 16 + info as int % 0x4000 * 4;
        lemma_block_entry(start, 0, banks);
        lemma_block_entry(start, 1, banks);
        lemma_block_entry(start, 2, banks);
        lemma_block_entry(start, 3, banks);
        let c0 = block_color(start, 0, banks);
        let c1 = block_color(start, 1, banks);
        lemma_mean_between(c0, c1, 1, 1);
        lemma_mean_between(c0, c1, 5, 3);
        lemma_mean_between(c0, c1, 3, 5);
    }
}

/// Whether each channel of `c` is the mean of `a`'s and `b`'s, with weights `wa`
/// and `wb`, rounded down.
pub open spec fn between(c: int, a: int, b: int, wa: int, wb: int) -> bool {
    let n = wa + wb;
    &&& 0 <= (a % 32) * wa + (b % 32) * wb - n * (c % 32) < n
    &&& 0 <= (a / 32 % 32) * wa + (b / 32 % 32) * wb - n * (c / 32 % 32) < n
    &&& 0 <= (a / 1024 % 32) * wa + (b / 1024 % 32) * wb - n * (c / 1024 % 32) < n
}

#[verifier::spinoff_prover]
#[verifier::rlimit(40)]
proof fn lemma_block_entry(start: int, k: int, banks: Seq<BankState>)
    requires
        0 <= start <= 0x20_0000,
        start % 2 == 0,
        0 <= k < 4,
    ensures
        block_color(start, k, banks) == entry_color(start, k, banks),
{
    let at = start + 2 * k;
    lemma_entry(at, banks);
    assert(at + 2 * 0 == at);
    assert(entry_color(at, 0, banks) == entry_color(start, k, banks));
}

proof fn lemma_mean_between(a: u16, b: u16, wa: int, wb: int)
    requires
        (wa == 1 && wb == 1) || (wa == 5 && wb == 3) || (wa == 3 && wb == 5),
    ensures
        between(mean_color(a, b, wa, wb) as int, a as int, b as int, wa, wb),
{
    let (ra, ga, ba) = (bgr555::red(a), bgr555::green(a), bgr555::blue(a));
    let (rb, gb, bb) = (bgr555::red(b), bgr555::green(b), bgr555::blue(b));
    lemma_mean_rounds(ra, rb, wa, wb);
    lemma_mean_rounds(ga, gb, wa, wb);
    lemma_mean_rounds(ba, bb, wa, wb);
    bgr555::law_pack_channels(mean(ra, rb, wa, wb), mean(ga, gb, wa, wb), mean(ba, bb, wa, wb));
}

proof fn lemma_mean_rounds(a: int, b: int, wa: int, wb: int)
    requires
        0 <= a <= 31,
        0 <= b <= 31,
        (wa == 1 && wb == 1) || (wa == 5 && wb == 3) || (wa == 3 && wb == 5),
    ensures
        0 <= mean(a, b, wa, wb) <= 31,
        0 <= a * wa + b * wb - (wa + wb) * mean(a, b, wa, wb) < wa + wb,
{
    if wa == 1 {
        assert(a * 1 + b * 1 == a + b);
    } else if wa == 5 {
        assert(0 <= (a * 5 + b * 3) / 8 <= 31);
    } else {
        assert(0 <= (a * 3 + b * 5) / 8 <= 31);
    }
}

/// A byte of a block shows in its own row alone: where two memories agree on the
/// byte of a row, on the block's word and on the palettes, the row is the same
/// whatever the other rows hold.
pub proof fn law_block_rows_apart(
    tp: TexParams,
    u: int,
    v: int,
    palette_base: u16,
    banks: Seq<BankState>,
    others: Seq<BankState>,
)
    requires
        tp.wf(),
        tp.format == 5,
        tp.width % 4 == 0,
        tp.vram_offset % 8 == 0,
        0 <= u < tp.width,
        0 <= v < tp.height,
        ({
            let at = tp.vram_offset + 4 * ((v / 4) * (tp.width as int / 4) + u / 4);
            vram::read(banks, Window::TextureImage, (at + v % 4) as u32) == vram::read(
                others,
                Window::TextureImage,
                (at + v % 4) as u32,
            )
        }),
        forall|addr: u32|
            0x2_0000 <= addr < 0x4_0000 ==> vram::read(banks, Window::TextureImage, addr)
                == #[trigger] vram::read(others, Window::TextureImage, addr),
        forall|addr: u32|
            vram::read(banks, Window::TexturePalette, addr) == #[trigger] vram::read(
                others,
                Window::TexturePalette,
                addr,
            ),
    ensures
        texel_at(tp, u, v, palette_base, banks) == texel_at(tp, u, v, palette_base, others),
{
    lemma_wrapped_inside(u, tp.width as int, tp.repeat_s, tp.flip_s);
    lemma_wrapped_inside(v, tp.height as int, tp.repeat_t, tp.flip_t);
    let block = (v / 4) * fixed::max(tp.width as int / 4, 1) + u / 4;
    assert(block >= 0) by (nonlinear_arith)
        requires
            block == (v / 4) * fixed::max(tp.width as int / 4, 1) + u / 4,
            v / 4 >= 0,
            u / 4 >= 0,
            fixed::max(tp.width as int / 4, 1) >= 1,
    ;
    let at = tp.vram_offset + block * 4;
    assert(tp.vram_offset + (block * 4 + v % 4) == at + v % 4);
    if let Some(info_at) = block_param_addr(at) {
        assert(at % 4 == 0);
        assert(at % 0x2_0000 % 4 == 0);
        assert(0x2_0000 <= info_at < 0x4_0000 - 1);
        assert(image_u16(info_at, banks) == image_u16(info_at, others));
    }
}

/// Modulating by full level keeps a level, by none gives none, and the order of
/// the two does not matter; the product never exceeds either and grows with both.
pub proof fn law_modulation(a: int, b: int, c: int)
    requires
        0 <= a <= 31,
        0 <= b <= c <= 31,
    ensures
        modulated(a, 31) == a,
        modulated(a, 0) == 0,
        modulated(a, b) == modulated(b, a),
        0 <= modulated(a, b) <= a,
        modulated(a, b) <= modulated(a, c),
        a > 0 && b > 0 ==> 0 <= a * b - 31 * modulated(a, b) + 31 <= 93,
{
    let x = widen(a) + 1;
    let y = widen(b) + 1;
    let z = widen(c) + 1;
    assert(x * y == y * x) by (nonlinear_arith);
    assert(x * 64 / 64 == x);
    assert(widen(0) + 1 == 1);
    assert(x * (widen(0) + 1) == x) by (nonlinear_arith)
        requires
            widen(0) + 1 == 1,
    ;
    assert(x * y <= x * z <= x * 64) by (nonlinear_arith)
        requires
            1 <= x,
            1 <= y <= z <= 64,
    ;
    assert(x * y >= 1) by (nonlinear_arith)
        requires
            1 <= x,
            1 <= y,
    ;
    if a > 0 && b > 0 {
        assert(x * y == 4 * (a * b) + 4 * a + 4 * b + 4) by (nonlinear_arith)
            requires
                x == 2 * a + 2,
                y == 2 * b + 2,
        ;
        assert((a - 31) * (b - 31) >= 0) by (nonlinear_arith)
            requires
                a <= 31,
                b <= 31,
        ;
        assert((a - 31) * (b - 31) == a * b - 31 * a - 31 * b + 961) by (nonlinear_arith);
        assert(a * b >= a && a * b >= b) by (nonlinear_arith)
            requires
                a >= 1,
                b >= 1,
        ;
    }
}

/// In modes 0 and 2 a white vertex shows the texel, a white texel the vertex
/// color, and a texel without alpha nothing.
pub proof fn law_modulate_with_white(texel: Texel, vertex: u16)
    ensures
        texel.alpha == 0 ==> combined(texel, vertex, 0).1 == 0,
        texel.alpha != 0 ==> combined(texel, vertex, 0).1 == texel.alpha,
        texel.alpha != 0 && vertex % 0x8000 == 0x7FFF ==> combined(texel, vertex, 0).0
            == texel.color % 0x8000,
        texel.alpha != 0 && texel.color % 0x8000 == 0x7FFF ==> combined(texel, vertex, 0).0
            == vertex % 0x8000,
        combined(texel, vertex, 2) == combined(texel, vertex, 0),
{
    let t = texel.color;
    law_modulation(bgr555::red(t), bgr555::red(vertex), 31);
    law_modulation(bgr555::green(t), bgr555::green(vertex), 31);
    law_modulation(bgr555::blue(t), bgr555::blue(vertex), 31);
    law_modulation(bgr555::red(vertex), bgr555::red(t), 31);
    law_modulation(bgr555::green(vertex), bgr555::green(t), 31);
    law_modulation(bgr555::blue(vertex), bgr555::blue(t), 31);
    bgr555::law_channels_pack(t);
    bgr555::law_channels_pack(vertex);
    lemma_white(t);
    lemma_white(vertex);
}

proof fn lemma_white(c: u16)
    ensures
        c % 0x8000 == 0x7FFF ==> bgr555::red(c) == 31 && bgr555::green(c) == 31 && bgr555::blue(c)
            == 31,
{
    let x = c as int;
    if x % 0x8000 == 0x7FFF {
        assert(x == 0x7FFF || x == 0xFFFF);
    }
}

/// A decal covers the vertex color as far as its alpha says: fully at 31, not at
/// all at 0, and never beyond either color; the fragment keeps full alpha.
pub proof fn law_decal_covers(texel: Texel, vertex: u16)
    requires
        texel.alpha <= 31,
    ensures
        combined(texel, vertex, 1).1 == 31,
        texel.alpha == 31 ==> combined(texel, vertex, 1).0 == texel.color % 0x8000,
        texel.alpha == 0 ==> combined(texel, vertex, 1).0 == vertex % 0x8000,
{
}

/// More decal alpha brings the level closer to the texel's.
pub proof fn law_decal_mix_moves(texel: int, vertex: int, less: int, more: int)
    requires
        0 <= texel <= 31,
        0 <= vertex <= 31,
        0 <= less <= more <= 31,
    ensures
        texel >= vertex ==> mixed(texel, vertex, less) <= mixed(texel, vertex, more),
        texel <= vertex ==> mixed(texel, vertex, less) >= mixed(texel, vertex, more),
        texel - 1 <= mixed(texel, vertex, 31) <= texel,
        vertex - 1 <= mixed(texel, vertex, 0) <= vertex,
{
    let t = widen(texel);
    let v = widen(vertex);
    let a = widen(less);
    let b = widen(more);
    assert(t * a + v * (63 - a) == 63 * v + (t - v) * a) by (nonlinear_arith);
    assert(t * b + v * (63 - b) == 63 * v + (t - v) * b) by (nonlinear_arith);
    assert(t >= v ==> (t - v) * a <= (t - v) * b) by (nonlinear_arith)
        requires
            a <= b,
    ;
    assert(t <= v ==> (t - v) * a >= (t - v) * b) by (nonlinear_arith)
        requires
            a <= b,
    ;
    assert(t * 63 + v * 0 == 63 * t);
    assert(t * 0 + v * 63 == 63 * v);
}

/// Between its ends a decal's alpha `a` gives the texel `2a + 1` parts and the
/// vertex color `62 - 2a` parts of 63, channel by channel, give or take one level.
pub proof fn law_decal_weights(texel: Texel, vertex: u16)
    requires
        0 < texel.alpha < 31,
    ensures
        ({
            let c = combined(texel, vertex, 1).0;
            let a = texel.alpha as int;
            let (p, q) = (2 * a + 1, 62 - 2 * a);
            let t = texel.color as int;
            let v = vertex as int;
            &&& -32 < (t % 32) * p + (v % 32) * q - 64 * (c as int % 32) < 64
            &&& -32 < (t / 32 % 32) * p + (v / 32 % 32) * q - 64 * (c as int / 32 % 32) < 64
            &&& -32 < (t / 1024 % 32) * p + (v / 1024 % 32) * q - 64 * (c as int / 1024 % 32) < 64
            &&& c < 0x8000
        }),
{
    let t = texel.color;
    let a = texel.alpha as int;
    lemma_mixed_weights(bgr555::red(t), bgr555::red(vertex), a);
    lemma_mixed_weights(bgr555::green(t), bgr555::green(vertex), a);
    lemma_mixed_weights(bgr555::blue(t), bgr555::blue(vertex), a);
    bgr555::law_pack_channels(
        mixed(bgr555::red(t), bgr555::red(vertex), a),
        mixed(bgr555::green(t), bgr555::green(vertex), a),
        mixed(bgr555::blue(t), bgr555::blue(vertex), a),
    );
}

proof fn lemma_mixed_weights(texel: int, vertex: int, a: int)
    requires
        0 <= texel <= 31,
        0 <= vertex <= 31,
        0 < a < 31,
    ensures
        0 <= mixed(texel, vertex, a) <= 31,
        -32 < texel * (2 * a + 1) + vertex * (62 - 2 * a) - 64 * mixed(texel, vertex, a) < 64,
{
    let (t, v) = (widen(texel), widen(vertex));
    let (p, q) = (2 * a + 1, 62 - 2 * a);
    let m = texel * p + vertex * q;
    let w = t * p + v * q;
    assert(2 * m <= w <= 2 * m + 63) by (nonlinear_arith)
        requires
            0 <= p,
            0 <= q,
            p + q == 63,
            m == texel * p + vertex * q,
            w == t * p + v * q,
            2 * texel <= t <= 2 * texel + 1,
            2 * vertex <= v <= 2 * vertex + 1,
    ;
    assert(0 <= m <= 31 * 63) by (nonlinear_arith)
        requires
            0 <= p,
            0 <= q,
            p + q == 63,
            m == texel * p + vertex * q,
            0 <= texel <= 31,
            0 <= vertex <= 31,
    ;
    assert(widen(a) == p && 63 - widen(a) == q);
    assert(w / 64 / 2 == w / 128);
}

/// In shadow mode the texel does not matter.
pub proof fn law_shadow_keeps_vertex_color(texel: Texel, vertex: u16)
    ensures
        combined(texel, vertex, 3) == (vertex, 31u8),
{
}

/// Format 0 has no texels.
pub proof fn law_no_texture(
    tp: TexParams,
    u: int,
    v: int,
    palette_base: u16,
    banks: Seq<BankState>,
)
    requires
        tp.format == 0,
    ensures
        texel_at(tp, u, v, palette_base, banks).alpha == 0,
        texel_at(tp, u, v, palette_base, banks).color == 0,
{
}

} // verus!
