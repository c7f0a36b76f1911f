#![allow(unused_imports)]

use nds_core::gpu3d::raster::{expand_clear_depth, is_translucent, AA_EDGE_UP, DEPTH_MAX};
use nds_core::gpu3d::{Rasterizer, ScreenPolygon, ScreenVertex, FB_WIDTH};
use nds_core::vram::{BankId, VramRouter};

fn sv(x: i32, y: i32, color: u16) -> ScreenVertex {
    ScreenVertex {
        screen_x: x << 8,
        screen_y: y << 8,
        depth_z: 0,
        w: 4096,
        color,
        tex: [0, 0],
    }
}

fn translucent_triangle(min_y: i32, color: u16) -> ScreenPolygon {
    ScreenPolygon {
        vertices: vec![
            sv(10, min_y, color),
            sv(50, min_y + 10, color),
            sv(30, min_y + 30, color),
        ],
        attr: (16 << 16) | (1 << 6) | (1 << 7),
        tex_image_param: 0,
        palette_base: 0,
        front_area_negative: true,
    }
}

fn vram_with_a5i3_green_alpha(alpha: u8) -> VramRouter {
    let mut v = VramRouter::new();
    v.write_cnt(BankId::A, 0x80 | 3);
    v.write_cnt(BankId::E, 0x80 | 3);

    for texel in v.banks[BankId::A as usize].data.iter_mut().take(64) {
        *texel = ((alpha & 0x1F) << 3) | 1;
    }

    let palette = &mut v.banks[BankId::E as usize].data;
    palette[2] = 0xE0;
    palette[3] = 0x03;
    v
}

#[test]
fn test_clear_color_bit15_initializes_rear_plane_fog_flag() {
    let mut r = Rasterizer::new();
    r.clear_color = (1 << 15) | (0x1F << 16);

    r.clear();

    assert!(r.fog_enable_buffer.iter().all(|&f| f == 1));
}

#[test]
fn test_clear_color_initializes_alpha_buffer() {
    let mut r = Rasterizer::new();
    r.clear_color = 0x12 << 16;

    r.clear();

    assert!(r.alpha_buffer.iter().all(|&a| a == 0x12));
    assert!(r.framebuffer.iter().all(|&p| p & (1 << 15) != 0));
}

#[test]
fn test_clear_color_initializes_rear_color_buffer() {
    let mut r = Rasterizer::new();
    r.clear_color = 0x03E0 | (0x1F << 16);
    r.aa_coverage_buffer[0] = 8;
    r.aa_edge_hint_buffer[0] = AA_EDGE_UP;

    r.clear();

    assert!(r.rear_color_buffer.iter().all(|&p| p == 0x03E0 | (1 << 15)));
    assert!(r.aa_coverage_buffer.iter().all(|&c| c == 0));
    assert!(r.aa_edge_hint_buffer.iter().all(|&h| h == 0));
}

#[test]
fn test_clear_color_initializes_rear_plane_polygon_id() {
    let mut r = Rasterizer::new();
    r.clear_color = 0x2A << 24;

    r.clear();

    assert!(r.id_buffer.iter().all(|&id| id == 0x2A));
}

#[test]
fn test_clear_depth_expands_to_hardware_depth_range() {
    assert_eq!(expand_clear_depth(0), 0);
    assert_eq!(expand_clear_depth(1), 0x200);
    assert_eq!(expand_clear_depth(0x7FFE), 0x00FF_FC00);
    assert_eq!(expand_clear_depth(0x7FFF), DEPTH_MAX);
    assert_eq!(expand_clear_depth(0xFFFF), DEPTH_MAX);
}

#[test]
fn test_rear_bitmap_clear_uses_texture_slots_and_scroll() {
    let mut vram = VramRouter::new();
    vram.write_cnt(BankId::C, 0x80 | (2 << 3) | 3);
    vram.write_cnt(BankId::D, 0x80 | (3 << 3) | 3);

    let src = (3 * 256 + 2) * 2;
    {
        let color = &mut vram.banks[BankId::C as usize].data;
        color[src] = 0x1F;
        color[src + 1] = 0x80;
        color[src + 2] = 0x1F;
        color[src + 3] = 0x00;
    }
    {
        let depth = &mut vram.banks[BankId::D as usize].data;
        depth[src] = 0x34;
        depth[src + 1] = 0x92;
        depth[src + 2] = 0xFF;
        depth[src + 3] = 0xFF;
    }

    let mut r = Rasterizer::new();
    r.disp3dcnt = 1 << 14;
    r.clear_color = 0x2A << 24;
    r.clear_image_offset = (3 << 8) | 2;

    r.clear_with_vram(Some(&vram));

    assert_eq!(r.framebuffer[0], 0x801F);
    assert_eq!(r.rear_color_buffer[0], 0x801F);
    assert_eq!(r.alpha_buffer[0], 31);
    assert_eq!(r.depth_buffer[0], expand_clear_depth(0x1234));
    assert_eq!(r.id_buffer[0], 0x2A);
    assert_eq!(r.fog_enable_buffer[0], 1);
    assert_eq!(r.edge_enable_buffer[0], 0);

    // Rear color bitmap alpha is 1-bit, while rear depth bit 15 is only
    // the initial fog flag and must not affect 15-bit clear-depth expansion.
    assert_eq!(r.framebuffer[1], 0x001F);
    assert_eq!(r.rear_color_buffer[1], 0x001F);
    assert_eq!(r.alpha_buffer[1], 0);
    assert_eq!(r.depth_buffer[1], expand_clear_depth(0x7FFF));
    assert_eq!(r.fog_enable_buffer[1], 1);
}

#[test]
fn test_swap_buffers_manual_sort_preserves_translucent_software_order() {
    let red_later_y = translucent_triangle(20, 0x001F);
    let blue_earlier_y = translucent_triangle(10, 0x7C00);
    let idx = 25 * FB_WIDTH + 30;

    let mut auto = Rasterizer::new();
    auto.disp3dcnt = 1 << 3;
    auto.render_frame(&[red_later_y.clone(), blue_earlier_y.clone()], None);

    let mut manual = Rasterizer::new();
    manual.disp3dcnt = 1 << 3;
    manual.set_swap_attrs(1);
    manual.render_frame(&[red_later_y, blue_earlier_y], None);

    assert_ne!(
        auto.framebuffer[idx] & 0x7FFF,
        manual.framebuffer[idx] & 0x7FFF
    );
    assert!(
        (manual.framebuffer[idx] & 0x1F) > ((manual.framebuffer[idx] >> 10) & 0x1F),
        "manual sorting must preserve software order, leaving red as the later blend"
    );
}

#[test]
fn test_translucent_texture_formats_are_sorted_with_translucent_polygons_in_modulate_mode() {
    let p = ScreenPolygon {
        vertices: Vec::new(),
        attr: (31 << 16) | (1 << 6) | (1 << 7),
        tex_image_param: 6 << 26,
        palette_base: 0,
        front_area_negative: true,
    };

    assert!(is_translucent(&p, true));
    assert!(!is_translucent(&p, false));
}

#[test]
fn test_wireframe_translucent_texture_formats_are_sorted_with_translucent_polygons() {
    let p = ScreenPolygon {
        vertices: Vec::new(),
        attr: (1 << 6) | (1 << 7),
        tex_image_param: 6 << 26,
        palette_base: 0,
        front_area_negative: true,
    };

    assert!(is_translucent(&p, true));
    assert!(!is_translucent(&p, false));
}

#[test]
fn test_wireframe_translucent_texture_renders_after_opaque_polygons() {
    let mut r = Rasterizer::new();
    r.disp3dcnt = 1 | (1 << 3); // texture mapping + alpha blend.
    let vram = vram_with_a5i3_green_alpha(15);

    let mut wire = ScreenPolygon {
        vertices: vec![sv(20, 20, 0x7FFF), sv(40, 20, 0x7FFF), sv(20, 20, 0x7FFF)],
        attr: (1 << 6) | (1 << 7),
        tex_image_param: 6 << 26,
        palette_base: 0,
        front_area_negative: true,
    };
    for v in &mut wire.vertices {
        v.depth_z = 0;
    }

    let mut opaque = ScreenPolygon {
        vertices: vec![sv(10, 10, 0x001F), sv(50, 10, 0x001F), sv(30, 40, 0x001F)],
        attr: (0x1F << 16) | (1 << 6) | (1 << 7),
        tex_image_param: 0,
        palette_base: 0,
        front_area_negative: true,
    };
    for v in &mut opaque.vertices {
        v.depth_z = 100;
    }

    r.render_frame(&[wire, opaque], Some(&vram));

    let idx = 20 * FB_WIDTH + 30;
    let color = r.framebuffer[idx] & 0x7FFF;
    assert_ne!(
        color, 0x001F,
        "late translucent wireframe should blend over opaque red"
    );
    assert!(
        (color & 0x1F) > 0,
        "red contribution should remain after blend"
    );
    assert!(
        ((color >> 5) & 0x1F) > 0,
        "green wireframe should contribute after blend"
    );
}

#[test]
fn test_translucent_texture_format_is_opaque_when_texture_mapping_disabled() {
    let mut r = Rasterizer::new();
    r.disp3dcnt = 1 << 3; // alpha blend enabled, texture mapping disabled.

    let front_red_a5i3 = ScreenPolygon {
        vertices: vec![sv(10, 10, 0x001F), sv(50, 10, 0x001F), sv(30, 40, 0x001F)],
        attr: (0x1F << 16) | (1 << 6) | (1 << 7),
        tex_image_param: 6 << 26,
        palette_base: 0,
        front_area_negative: true,
    };
    let mut back_blue = ScreenPolygon {
        vertices: vec![sv(10, 10, 0x7C00), sv(50, 10, 0x7C00), sv(30, 40, 0x7C00)],
        attr: (0x1F << 16) | (1 << 6) | (1 << 7),
        tex_image_param: 0,
        palette_base: 0,
        front_area_negative: true,
    };
    for v in &mut back_blue.vertices {
        v.depth_z = 100;
    }

    r.render_frame(&[front_red_a5i3, back_blue], None);

    let idx = 20 * FB_WIDTH + 30;
    assert_eq!(
        r.framebuffer[idx] & 0x7FFF,
        0x001F,
        "texture-alpha formats must not be delayed to the translucent pass when texture mapping is disabled"
    );
}

#[test]
fn test_opaque_decal_translucent_texture_stays_in_opaque_pass() {
    let p = ScreenPolygon {
        vertices: Vec::new(),
        attr: (1 << 4) | (31 << 16) | (1 << 6) | (1 << 7),
        tex_image_param: 6 << 26,
        palette_base: 0,
        front_area_negative: true,
    };

    assert!(!is_translucent(&p, true));
}

#[test]
fn test_wireframe_decal_translucent_texture_stays_in_opaque_pass() {
    let p = ScreenPolygon {
        vertices: Vec::new(),
        attr: (1 << 4) | (1 << 6) | (1 << 7),
        tex_image_param: 6 << 26,
        palette_base: 0,
        front_area_negative: true,
    };

    assert!(!is_translucent(&p, true));
}
