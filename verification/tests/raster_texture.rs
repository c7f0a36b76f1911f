#![allow(unused_imports)]

use nds_core::gpu3d::raster::texture::{combine_with_vertex, sample, wrap_coord, TexParams, Texel};
use nds_core::vram::{BankId, VramRouter};

fn vram_with_palette_at_0(entries: &[u16]) -> VramRouter {
    let mut v = VramRouter::new();
    // Bank E → texture palette slot 0..3
    v.write_cnt(BankId::E, 0x80 | 3);
    // Bank E sits at texture-palette addr 0..0x10000.
    // Each palette entry is 2 bytes (BGR555).
    for (i, &c) in entries.iter().enumerate() {
        let b = &mut v.banks[BankId::E as usize].data;
        b[i * 2] = c as u8;
        b[i * 2 + 1] = (c >> 8) as u8;
    }
    v
}

fn vram_with_image(bytes: &[u8]) -> VramRouter {
    let mut v = VramRouter::new();
    v.write_cnt(BankId::A, 0x80 | 3); // texture image slot 0
    let dst = &mut v.banks[BankId::A as usize].data;
    for (i, &b) in bytes.iter().enumerate() {
        dst[i] = b;
    }
    v
}

#[test]
fn test_decode_teximage_param() {
    // width=64 (3<<20=0x300000), height=32 (2<<23=0x1000000),
    // format=256-color (4<<26=0x10000000), color0 transparent (1<<29),
    // VRAM offset 0x100 (in 8-byte units = byte offset 0x800).
    let p = (0x100u32) | (3 << 20) | (2 << 23) | (4 << 26) | (1 << 29);
    let tp = TexParams::from_register(p);
    assert_eq!(tp.vram_offset, 0x800);
    assert_eq!(tp.width, 64);
    assert_eq!(tp.height, 32);
    assert_eq!(tp.format, 4);
    assert!(tp.color0_transparent);
}

#[test]
fn test_wrap_coord_clamp_mode() {
    assert_eq!(wrap_coord(-5, 16, false, false), 0);
    assert_eq!(wrap_coord(20, 16, false, false), 15);
    assert_eq!(wrap_coord(8, 16, false, false), 8);
}

#[test]
fn test_wrap_coord_repeat_mode() {
    assert_eq!(wrap_coord(20, 16, true, false), 4);
    assert_eq!(wrap_coord(-1, 16, true, false), 15);
}

#[test]
fn test_wrap_coord_repeat_flip() {
    // Range 0..15 then mirror 15..0 → at coord 16..31, gets flipped.
    assert_eq!(wrap_coord(16, 16, true, true), 15);
    assert_eq!(wrap_coord(31, 16, true, true), 0);
    assert_eq!(wrap_coord(32, 16, true, true), 0); // back to normal direction
                                                   // Negative repeat regions mirror the same way; Rust's truncating
                                                   // division would otherwise treat -1 as repetition 0 instead of -1.
    assert_eq!(wrap_coord(-1, 16, true, true), 0);
    assert_eq!(wrap_coord(-16, 16, true, true), 15);
    assert_eq!(wrap_coord(-17, 16, true, true), 15);
}

#[test]
fn test_256color_sample_with_color0_transparent() {
    let palette = vec![0x0000, 0x001F, 0x03E0, 0x7C00]; // black, red, green, blue
    let mut v = vram_with_image(&[0, 1, 2, 3]);
    // Bank E for palette
    v.write_cnt(BankId::E, 0x80 | 3);
    for (i, &c) in palette.iter().enumerate() {
        let b = &mut v.banks[BankId::E as usize].data;
        b[i * 2] = c as u8;
        b[i * 2 + 1] = (c >> 8) as u8;
    }
    let tp = TexParams {
        vram_offset: 0,
        width: 4,
        height: 1,
        format: 4,
        color0_transparent: true,
        repeat_s: false,
        repeat_t: false,
        flip_s: false,
        flip_t: false,
    };
    // Sample texel (0, 0): palette idx 0 → transparent
    let t = sample(tp, 0, 0, 0, &v);
    assert_eq!(t.alpha, 0);
    // Sample texel (1, 0): palette idx 1 → red
    let t = sample(tp, 1, 0, 0, &v);
    assert_eq!(t.color, 0x001F);
    assert_eq!(t.alpha, 31);
}

#[test]
fn test_4color_color0_transparent() {
    let mut v = vram_with_palette_at_0(&[0x0000, 0x001F]);
    v.write_cnt(BankId::A, 0x80 | 3); // texture image slot 0
                                      // Texel indices 0 then 1 in the low two 2bpp slots.
    v.banks[BankId::A as usize].data[0] = 0b0000_0100;

    let tp = TexParams {
        vram_offset: 0,
        width: 4,
        height: 1,
        format: 2,
        color0_transparent: true,
        repeat_s: false,
        repeat_t: false,
        flip_s: false,
        flip_t: false,
    };

    assert_eq!(sample(tp, 0, 0, 0, &v).alpha, 0);
    let opaque = sample(tp, 1, 0, 0, &v);
    assert_eq!(opaque.color, 0x001F);
    assert_eq!(opaque.alpha, 31);
}

#[test]
fn test_16color_color0_transparent() {
    let mut v = vram_with_palette_at_0(&[0x0000, 0x001F]);
    v.write_cnt(BankId::A, 0x80 | 3); // texture image slot 0
                                      // Texel indices 0 then 1 in the low/high 4bpp nibbles.
    v.banks[BankId::A as usize].data[0] = 0x10;

    let tp = TexParams {
        vram_offset: 0,
        width: 2,
        height: 1,
        format: 3,
        color0_transparent: true,
        repeat_s: false,
        repeat_t: false,
        flip_s: false,
        flip_t: false,
    };

    assert_eq!(sample(tp, 0, 0, 0, &v).alpha, 0);
    let opaque = sample(tp, 1, 0, 0, &v);
    assert_eq!(opaque.color, 0x001F);
    assert_eq!(opaque.alpha, 31);
}

#[test]
fn test_a3i5_alpha_expands_to_five_bits() {
    let mut v = vram_with_palette_at_0(&[0x0000, 0x001F]);
    v.write_cnt(BankId::A, 0x80 | 3); // texture image slot 0
    let image = &mut v.banks[BankId::A as usize].data;
    image[0] = 1; // alpha 0, palette index 1.
    image[1] = (1 << 5) | 1;
    image[2] = (4 << 5) | 1;
    image[3] = (7 << 5) | 1;

    let tp = TexParams {
        vram_offset: 0,
        width: 8,
        height: 8,
        format: 1,
        color0_transparent: false,
        repeat_s: false,
        repeat_t: false,
        flip_s: false,
        flip_t: false,
    };

    assert_eq!(sample(tp, 0, 0, 0, &v).alpha, 0);
    assert_eq!(sample(tp, 1, 0, 0, &v).alpha, 4);
    assert_eq!(sample(tp, 2, 0, 0, &v).alpha, 18);
    assert_eq!(sample(tp, 3, 0, 0, &v).alpha, 31);
}

#[test]
fn test_4color_palette_base_uses_8_byte_units() {
    let mut v = vram_with_image(&[0b01]);
    v.write_cnt(BankId::E, 0x80 | 3);
    // Put palette entry 1 for PLTT_BASE=1 at byte offset 8 + 2.
    let b = &mut v.banks[BankId::E as usize].data;
    b[10] = 0x1F;
    b[11] = 0x00;
    // Put a different color at the 16-byte interpretation to catch the
    b[18] = 0x00;
    b[19] = 0x7C;

    let tp = TexParams {
        vram_offset: 0,
        width: 4,
        height: 1,
        format: 2,
        color0_transparent: false,
        repeat_s: false,
        repeat_t: false,
        flip_s: false,
        flip_t: false,
    };

    assert_eq!(sample(tp, 0, 0, 1, &v).color, 0x001F);
}

#[test]
fn test_16color_palette_base_uses_16_byte_units() {
    let mut v = vram_with_image(&[0x01]);
    v.write_cnt(BankId::E, 0x80 | 3);
    let b = &mut v.banks[BankId::E as usize].data;
    b[18] = 0x00;
    b[19] = 0x7C;

    let tp = TexParams {
        vram_offset: 0,
        width: 2,
        height: 1,
        format: 3,
        color0_transparent: false,
        repeat_s: false,
        repeat_t: false,
        flip_s: false,
        flip_t: false,
    };

    assert_eq!(sample(tp, 0, 0, 1, &v).color, 0x7C00);
}

#[test]
fn test_direct_color_format() {
    let v = vram_with_image(&[
        0x1F, 0x80, // texel 0: red + alpha
        0x00, 0x7C, // texel 1: blue (BGR555 = 0x7C00) + alpha 0 (top bit clear)
    ]);
    let tp = TexParams {
        vram_offset: 0,
        width: 2,
        height: 1,
        format: 7,
        color0_transparent: false,
        repeat_s: false,
        repeat_t: false,
        flip_s: false,
        flip_t: false,
    };
    let t = sample(tp, 0, 0, 0, &v);
    assert_eq!(t.color, 0x001F);
    assert_eq!(t.alpha, 31);
    let t = sample(tp, 1, 0, 0, &v);
    assert_eq!(t.color, 0x7C00);
    assert_eq!(t.alpha, 0);
}

#[test]
fn test_4x4_compressed_mode_2_samples_four_palette_colors() {
    let mut v = VramRouter::new();
    v.write_cnt(BankId::A, 0x80 | 3); // texture image slot 0
    v.write_cnt(BankId::B, 0x80 | (1 << 3) | 3); // compressed params in slot 1
    v.write_cnt(BankId::E, 0x80 | 3); // texture palette slot 0

    // One 4x4 block. Top row texel indices are 0, 1, 2, 3.
    v.banks[BankId::A as usize].data[0] = 0b11_10_01_00;
    // Palette offset 0, mode 2 = four explicit colors.
    v.banks[BankId::B as usize].data[0] = 0;
    v.banks[BankId::B as usize].data[1] = 2 << 6;
    let colors = [0x001F, 0x03E0, 0x7C00, 0x7FFF];
    for (i, &c) in colors.iter().enumerate() {
        let b = &mut v.banks[BankId::E as usize].data;
        b[i * 2] = c as u8;
        b[i * 2 + 1] = (c >> 8) as u8;
    }

    let tp = TexParams {
        vram_offset: 0,
        width: 4,
        height: 4,
        format: 5,
        color0_transparent: false,
        repeat_s: false,
        repeat_t: false,
        flip_s: false,
        flip_t: false,
    };

    assert_eq!(sample(tp, 0, 0, 0, &v).color, colors[0]);
    assert_eq!(sample(tp, 1, 0, 0, &v).color, colors[1]);
    assert_eq!(sample(tp, 2, 0, 0, &v).color, colors[2]);
    assert_eq!(sample(tp, 3, 0, 0, &v).color, colors[3]);
}

#[test]
fn test_4x4_compressed_mode_1_makes_index_3_transparent() {
    let mut v = VramRouter::new();
    v.write_cnt(BankId::A, 0x80 | 3);
    v.write_cnt(BankId::B, 0x80 | (1 << 3) | 3);
    v.write_cnt(BankId::E, 0x80 | 3);

    v.banks[BankId::A as usize].data[0] = 0b11_10_01_00;
    v.banks[BankId::B as usize].data[1] = 1 << 6;
    let b = &mut v.banks[BankId::E as usize].data;
    b[0] = 0x1F;
    b[1] = 0x00;
    b[2] = 0x00;
    b[3] = 0x7C;

    let tp = TexParams {
        vram_offset: 0,
        width: 4,
        height: 4,
        format: 5,
        color0_transparent: false,
        repeat_s: false,
        repeat_t: false,
        flip_s: false,
        flip_t: false,
    };

    assert_eq!(sample(tp, 2, 0, 0, &v).alpha, 31);
    assert_eq!(sample(tp, 3, 0, 0, &v).alpha, 0);
}

#[test]
fn test_4x4_compressed_mode_1_interpolates_index_2_evenly() {
    let mut v = VramRouter::new();
    v.write_cnt(BankId::A, 0x80 | 3);
    v.write_cnt(BankId::B, 0x80 | (1 << 3) | 3);
    v.write_cnt(BankId::E, 0x80 | 3);

    v.banks[BankId::A as usize].data[0] = 0b10;
    v.banks[BankId::B as usize].data[1] = 1 << 6;
    let b = &mut v.banks[BankId::E as usize].data;
    b[0] = 0x1F; // c0 red = 31.
    b[1] = 0x00;
    b[2] = 0xE0; // c1 green = 31.
    b[3] = 0x03;

    let tp = TexParams {
        vram_offset: 0,
        width: 4,
        height: 4,
        format: 5,
        color0_transparent: false,
        repeat_s: false,
        repeat_t: false,
        flip_s: false,
        flip_t: false,
    };

    let texel = sample(tp, 0, 0, 0, &v);
    assert_eq!(texel.alpha, 31);
    assert_eq!(texel.color, 15 | (15 << 5));
}

#[test]
fn test_4x4_compressed_mode_3_uses_five_three_weighted_colors() {
    let mut v = VramRouter::new();
    v.write_cnt(BankId::A, 0x80 | 3);
    v.write_cnt(BankId::B, 0x80 | (1 << 3) | 3);
    v.write_cnt(BankId::E, 0x80 | 3);

    // Top row indices 0, 1, 2, 3; mode 3 derives indices 2 and 3 from
    // c0/c1 with 5:3 and 3:5 weights.
    v.banks[BankId::A as usize].data[0] = 0b11_10_01_00;
    v.banks[BankId::B as usize].data[1] = 3 << 6;
    let b = &mut v.banks[BankId::E as usize].data;
    b[0] = 0x1F; // c0 red = 31.
    b[1] = 0x00;
    b[2] = 0xE0; // c1 green = 31.
    b[3] = 0x03;

    let tp = TexParams {
        vram_offset: 0,
        width: 4,
        height: 4,
        format: 5,
        color0_transparent: false,
        repeat_s: false,
        repeat_t: false,
        flip_s: false,
        flip_t: false,
    };

    let idx2 = sample(tp, 2, 0, 0, &v);
    let idx3 = sample(tp, 3, 0, 0, &v);

    assert_eq!(idx2.alpha, 31);
    assert_eq!(idx2.color, 19 | (11 << 5));
    assert_eq!(idx3.alpha, 31);
    assert_eq!(idx3.color, 11 | (19 << 5));
}

#[test]
fn test_4x4_compressed_slot2_uses_upper_slot1_params() {
    let mut v = VramRouter::new();
    v.write_cnt(BankId::A, 0x80 | (2 << 3) | 3); // texture image slot 2
    v.write_cnt(BankId::B, 0x80 | (1 << 3) | 3); // compressed params in slot 1
    v.write_cnt(BankId::E, 0x80 | 3); // texture palette slot 0

    // One 4x4 block in slot 2. Top row texel indices are 0, 1, 2, 3.
    v.banks[BankId::A as usize].data[0] = 0b11_10_01_00;
    // Slot 2's compressed palette params are in the upper 64 KiB of slot 1.
    // Mode 2 keeps index 3 opaque, so this catches reads from the lower
    // half as transparent mode 0.
    v.banks[BankId::B as usize].data[0x10000 + 1] = 2 << 6;
    let colors = [0x001F, 0x03E0, 0x7C00, 0x7FFF];
    for (i, &c) in colors.iter().enumerate() {
        let b = &mut v.banks[BankId::E as usize].data;
        b[i * 2] = c as u8;
        b[i * 2 + 1] = (c >> 8) as u8;
    }

    let tp = TexParams {
        vram_offset: 0x4_0000,
        width: 4,
        height: 4,
        format: 5,
        color0_transparent: false,
        repeat_s: false,
        repeat_t: false,
        flip_s: false,
        flip_t: false,
    };

    assert_eq!(sample(tp, 3, 0, 0, &v).color, colors[3]);
    assert_eq!(sample(tp, 3, 0, 0, &v).alpha, 31);
}

#[test]
fn test_4x4_compressed_palette_base_offsets_palette_lookup() {
    let mut v = VramRouter::new();
    v.write_cnt(BankId::A, 0x80 | 3);
    v.write_cnt(BankId::B, 0x80 | (1 << 3) | 3);
    v.write_cnt(BankId::E, 0x80 | 3);

    // One block, first texel index 0. Mode 2 samples explicit palette
    // color 0 from the palette page selected by PLTT_BASE.
    v.banks[BankId::B as usize].data[1] = 2 << 6;
    let b = &mut v.banks[BankId::E as usize].data;
    // Base 0 color 0: red. This catches accidental base-zero sampling.
    b[0] = 0x1F;
    b[1] = 0x00;
    // PLTT_BASE=1 is a 16-byte offset for 4x4-compressed textures.
    b[16] = 0xE0;
    b[17] = 0x03;

    let tp = TexParams {
        vram_offset: 0,
        width: 4,
        height: 4,
        format: 5,
        color0_transparent: false,
        repeat_s: false,
        repeat_t: false,
        flip_s: false,
        flip_t: false,
    };

    let texel = sample(tp, 0, 0, 1, &v);
    assert_eq!(texel.color, 0x03E0);
    assert_eq!(texel.alpha, 31);
}

#[test]
fn test_combine_modulate_with_vertex() {
    let texel = Texel {
        color: 0x001F,
        alpha: 31,
    }; // full red
    let (out, a) = combine_with_vertex(texel, 0x7FFF, 0); // modulate with white vertex
    assert_eq!(a, 31);
    assert_eq!(out & 0x1F, 31); // r = 31 * 31 / 31 = 31
    assert_eq!((out >> 5) & 0x1F, 0);
    assert_eq!((out >> 10) & 0x1F, 0);

    // Modulate half-red texel with half-blue vertex:
    let texel = Texel {
        color: 0x0010,
        alpha: 31,
    }; // r=16
    let (out, _) = combine_with_vertex(texel, 0x4000, 0); // b=16
                                                          // r = 16 * 0 / 31 = 0, g = 0, b = 0 * 16 / 31 = 0. All channels zero
                                                          // (no overlap between texel red and vertex blue).
    assert_eq!(out, 0);
}

#[test]
fn test_combine_transparent_texel_discards_fragment() {
    let texel = Texel {
        color: 0x001F,
        alpha: 0,
    };
    let (out, a) = combine_with_vertex(texel, 0x7FFF, 0);

    assert_eq!(out, 0);
    assert_eq!(a, 0);
}

#[test]
fn test_modulate_uses_six_bit_expanded_formula() {
    let texel = Texel {
        color: 0x0010,
        alpha: 31,
    };
    let (out, a) = combine_with_vertex(texel, 0x0010, 0);

    assert_eq!(a, 31);
    assert_eq!(out & 0x1F, 9);
}

#[test]
fn test_decal_alpha_zero_keeps_vertex_color() {
    let texel = Texel {
        color: 0x001F,
        alpha: 0,
    };
    let (out, a) = combine_with_vertex(texel, 0x7C00, 1);

    assert_eq!(a, 31);
    assert_eq!(out, 0x7C00);
}

#[test]
fn test_decal_alpha_full_uses_texel_color() {
    let texel = Texel {
        color: 0x001F,
        alpha: 31,
    };
    let (out, a) = combine_with_vertex(texel, 0x7C00, 1);

    assert_eq!(a, 31);
    assert_eq!(out, 0x001F);
}

#[test]
fn test_decal_mid_alpha_uses_six_bit_ratio_formula() {
    let texel = Texel {
        color: 0x001F,
        alpha: 16,
    };
    let (out, a) = combine_with_vertex(texel, 0x0000, 1);

    assert_eq!(a, 31);
    assert_eq!(out & 0x1F, 16);
}
