#![allow(unused_imports)]

use nds_core::gpu3d::raster::triangle::{
    alpha_blend, depth_to_buffer, final_alpha, rasterize_polygon,
};
use nds_core::gpu3d::raster::DEPTH_MAX;
use nds_core::gpu3d::{Rasterizer, ScreenPolygon, ScreenVertex, FB_WIDTH};
use nds_core::vram::{BankId, VramRouter};

fn sv(x_pixel: i32, y_pixel: i32, color: u16) -> ScreenVertex {
    ScreenVertex {
        screen_x: x_pixel << 8,
        screen_y: y_pixel << 8,
        depth_z: 0,
        w: 4096, // ONE
        color,
        tex: [0, 0],
    }
}

fn poly(verts: Vec<ScreenVertex>) -> ScreenPolygon {
    ScreenPolygon {
        vertices: verts,
        attr: (0x1F << 16) | (1 << 6) | (1 << 7), // opaque, render front/back
        tex_image_param: 0,
        palette_base: 0,
        front_area_negative: true,
    }
}

fn shadow_poly(verts: Vec<ScreenVertex>, poly_id: u8) -> ScreenPolygon {
    ScreenPolygon {
        vertices: verts,
        attr: (3 << 4) | (1 << 6) | (1 << 7) | (0x10 << 16) | ((poly_id as u32) << 24),
        tex_image_param: 0,
        palette_base: 0,
        front_area_negative: true,
    }
}

fn toon_poly(verts: Vec<ScreenVertex>) -> ScreenPolygon {
    ScreenPolygon {
        vertices: verts,
        attr: (2 << 4) | (1 << 6) | (1 << 7) | (0x1F << 16),
        tex_image_param: 0,
        palette_base: 0,
        front_area_negative: true,
    }
}

fn textured_poly(verts: Vec<ScreenVertex>) -> ScreenPolygon {
    ScreenPolygon {
        vertices: verts,
        attr: (0x1F << 16) | (1 << 6) | (1 << 7),
        tex_image_param: (7 << 26), // direct-color, 8x8, image offset 0
        palette_base: 0,
        front_area_negative: true,
    }
}

fn colored_poly(verts: Vec<ScreenVertex>, alpha: u8) -> ScreenPolygon {
    colored_poly_with_id(verts, alpha, 0)
}

fn colored_poly_with_id(verts: Vec<ScreenVertex>, alpha: u8, poly_id: u8) -> ScreenPolygon {
    ScreenPolygon {
        vertices: verts,
        attr: ((alpha as u32) << 16) | (1 << 6) | (1 << 7) | ((poly_id as u32) << 24),
        tex_image_param: 0,
        palette_base: 0,
        front_area_negative: true,
    }
}

fn vram_with_direct_red_texture() -> VramRouter {
    let mut v = VramRouter::new();
    v.write_cnt(BankId::A, 0x80 | 3);
    let b = &mut v.banks[BankId::A as usize].data;
    for i in 0..64 {
        let off = i * 2;
        b[off] = 0x1F;
        b[off + 1] = 0x80;
    }
    v
}

fn vram_with_a5i3_translucent_red_texture() -> VramRouter {
    vram_with_a5i3_red_texture_alpha(15)
}

fn vram_with_a5i3_red_texture_alpha(alpha: u8) -> VramRouter {
    let mut v = VramRouter::new();
    v.write_cnt(BankId::A, 0x80 | 3);
    v.write_cnt(BankId::E, 0x80 | 3);

    let image = &mut v.banks[BankId::A as usize].data;
    for texel in image.iter_mut().take(64) {
        *texel = ((alpha & 0x1F) << 3) | 1; // A5I3 alpha, palette index=1.
    }

    let palette = &mut v.banks[BankId::E as usize].data;
    palette[2] = 0x1F;
    palette[3] = 0x00;
    v
}

#[test]
fn test_solid_red_triangle_writes_red_pixels() {
    let mut r = Rasterizer::new();
    r.disp3dcnt = 0;
    let p = poly(vec![
        sv(10, 10, 0x001F), // red
        sv(50, 10, 0x001F),
        sv(30, 30, 0x001F),
    ]);
    r.render_frame(&[p], None);

    // A pixel inside the triangle should be red, alpha-bit set.
    let center_idx = (15 * FB_WIDTH) + 30;
    let c = r.framebuffer[center_idx];
    assert!(c & (1 << 15) != 0, "alpha bit should be set");
    let r_chan = c & 0x1F;
    assert!(r_chan >= 30, "red channel should be ~31, got {}", r_chan);

    // A pixel outside the triangle should be unchanged (alpha 0).
    let outside = (0 * FB_WIDTH) + 0;
    assert_eq!(r.framebuffer[outside] & (1 << 15), 0);
}

#[test]
fn test_depth_test_rejects_far_pixel() {
    let mut r = Rasterizer::new();
    r.disp3dcnt = 1;
    // First polygon: blue, near (depth = -ONE).
    let near = ScreenPolygon {
        vertices: vec![
            ScreenVertex {
                screen_x: 10 << 8,
                screen_y: 10 << 8,
                depth_z: -4096,
                w: 4096,
                color: 0x7C00,
                tex: [0, 0],
            },
            ScreenVertex {
                screen_x: 50 << 8,
                screen_y: 10 << 8,
                depth_z: -4096,
                w: 4096,
                color: 0x7C00,
                tex: [0, 0],
            },
            ScreenVertex {
                screen_x: 30 << 8,
                screen_y: 30 << 8,
                depth_z: -4096,
                w: 4096,
                color: 0x7C00,
                tex: [0, 0],
            },
        ],
        attr: (0x1F << 16) | (1 << 6) | (1 << 7),
        tex_image_param: 0,
        palette_base: 0,
        front_area_negative: true,
    };
    // Second polygon: red, same shape, far (depth = +ONE).
    let far = ScreenPolygon {
        vertices: vec![
            ScreenVertex {
                screen_x: 10 << 8,
                screen_y: 10 << 8,
                depth_z: 4096,
                w: 4096,
                color: 0x001F,
                tex: [0, 0],
            },
            ScreenVertex {
                screen_x: 50 << 8,
                screen_y: 10 << 8,
                depth_z: 4096,
                w: 4096,
                color: 0x001F,
                tex: [0, 0],
            },
            ScreenVertex {
                screen_x: 30 << 8,
                screen_y: 30 << 8,
                depth_z: 4096,
                w: 4096,
                color: 0x001F,
                tex: [0, 0],
            },
        ],
        attr: (0x1F << 16) | (1 << 6) | (1 << 7),
        tex_image_param: 0,
        palette_base: 0,
        front_area_negative: true,
    };
    r.render_frame(&[near, far], None);

    // Center pixel: should still be blue (near won).
    let idx = (15 * FB_WIDTH) + 30;
    let c = r.framebuffer[idx];
    let r_chan = c & 0x1F;
    let b_chan = (c >> 10) & 0x1F;
    assert!(
        b_chan >= 30 && r_chan < 5,
        "expected blue (near), got 0x{:04X} (r={} b={})",
        c,
        r_chan,
        b_chan
    );
}

#[test]
fn test_z_depth_expands_to_depth_buffer_range() {
    assert_eq!(depth_to_buffer(-nds_core::gpu3d::matrix::ONE, 0, false), 0);
    assert_eq!(depth_to_buffer(0, 0, false), 0x3FFF << 9);
    assert_eq!(
        depth_to_buffer(nds_core::gpu3d::matrix::ONE / 2, 0, false),
        0x5FFF << 9
    );
    assert_eq!(
        depth_to_buffer(nds_core::gpu3d::matrix::ONE, 0, false),
        0x7FFF << 9
    );
    assert_eq!(
        depth_to_buffer(nds_core::gpu3d::matrix::ONE * 2, 0, false),
        0x7FFF << 9
    );
    assert_eq!(depth_to_buffer(0, 0, true), 0);
    assert_eq!(depth_to_buffer(0, 4096, true), 8 << 9);
    assert_eq!(depth_to_buffer(0, DEPTH_MAX + 1, true), DEPTH_MAX);
}

#[test]
fn test_opaque_polygon_without_edge_or_aa_excludes_right_edge() {
    let mut r = Rasterizer::new();
    let p = poly(vec![
        sv(10, 10, 0x001F),
        sv(20, 10, 0x001F),
        sv(20, 20, 0x001F),
    ]);

    r.render_frame(&[p], None);

    let inside = 15 * FB_WIDTH + 18;
    let right_edge = 15 * FB_WIDTH + 20;
    assert_eq!(r.framebuffer[inside] & 0x7FFF, 0x001F);
    assert_eq!(r.framebuffer[right_edge] & (1 << 15), 0);
}

#[test]
fn test_edge_marking_disables_small_polygon_right_edge_exclusion() {
    let mut r = Rasterizer::new();
    r.disp3dcnt = 1 << 5;
    let p = poly(vec![
        sv(10, 10, 0x001F),
        sv(20, 10, 0x001F),
        sv(20, 20, 0x001F),
    ]);

    r.render_frame(&[p], None);

    let right_edge = 15 * FB_WIDTH + 20;
    assert_eq!(r.framebuffer[right_edge] & (1 << 15), 1 << 15);
}

#[test]
fn test_translucent_polygon_excludes_right_edge_when_alpha_blend_disabled() {
    let mut r = Rasterizer::new();
    let p = colored_poly(
        vec![sv(10, 10, 0x001F), sv(20, 10, 0x001F), sv(20, 20, 0x001F)],
        16,
    );

    r.render_frame(&[p], None);

    let right_edge = 15 * FB_WIDTH + 20;
    assert_eq!(r.framebuffer[right_edge] & (1 << 15), 0);
}

#[test]
fn test_translucent_polygon_keeps_right_edge_when_alpha_blend_enabled() {
    let mut r = Rasterizer::new();
    r.disp3dcnt = 1 << 3;
    let p = colored_poly(
        vec![sv(10, 10, 0x001F), sv(20, 10, 0x001F), sv(20, 20, 0x001F)],
        16,
    );

    r.render_frame(&[p], None);

    let right_edge = 15 * FB_WIDTH + 20;
    assert_eq!(r.framebuffer[right_edge] & (1 << 15), 1 << 15);
}

#[test]
fn test_translucent_polygon_overwrites_when_alpha_blend_disabled() {
    let mut r = Rasterizer::new();
    r.disp3dcnt = 0;
    let blue = colored_poly(
        vec![
            ScreenVertex {
                screen_x: 10 << 8,
                screen_y: 10 << 8,
                depth_z: 2048,
                w: 4096,
                color: 0x7C00,
                tex: [0, 0],
            },
            ScreenVertex {
                screen_x: 50 << 8,
                screen_y: 10 << 8,
                depth_z: 2048,
                w: 4096,
                color: 0x7C00,
                tex: [0, 0],
            },
            ScreenVertex {
                screen_x: 30 << 8,
                screen_y: 30 << 8,
                depth_z: 2048,
                w: 4096,
                color: 0x7C00,
                tex: [0, 0],
            },
        ],
        31,
    );
    let red = colored_poly(
        vec![
            ScreenVertex {
                screen_x: 10 << 8,
                screen_y: 10 << 8,
                depth_z: 0,
                w: 4096,
                color: 0x001F,
                tex: [0, 0],
            },
            ScreenVertex {
                screen_x: 50 << 8,
                screen_y: 10 << 8,
                depth_z: 0,
                w: 4096,
                color: 0x001F,
                tex: [0, 0],
            },
            ScreenVertex {
                screen_x: 30 << 8,
                screen_y: 30 << 8,
                depth_z: 0,
                w: 4096,
                color: 0x001F,
                tex: [0, 0],
            },
        ],
        16,
    );

    r.render_frame(&[blue, red], None);

    let idx = (15 * FB_WIDTH) + 30;
    assert_eq!(r.framebuffer[idx] & 0x7FFF, 0x001F);
}

#[test]
fn test_translucent_polygon_blends_when_alpha_blend_enabled() {
    let mut r = Rasterizer::new();
    r.disp3dcnt = 1 << 3;
    let blue = colored_poly(
        vec![
            ScreenVertex {
                screen_x: 10 << 8,
                screen_y: 10 << 8,
                depth_z: 2048,
                w: 4096,
                color: 0x7C00,
                tex: [0, 0],
            },
            ScreenVertex {
                screen_x: 50 << 8,
                screen_y: 10 << 8,
                depth_z: 2048,
                w: 4096,
                color: 0x7C00,
                tex: [0, 0],
            },
            ScreenVertex {
                screen_x: 30 << 8,
                screen_y: 30 << 8,
                depth_z: 2048,
                w: 4096,
                color: 0x7C00,
                tex: [0, 0],
            },
        ],
        31,
    );
    let red = colored_poly(
        vec![
            ScreenVertex {
                screen_x: 10 << 8,
                screen_y: 10 << 8,
                depth_z: 0,
                w: 4096,
                color: 0x001F,
                tex: [0, 0],
            },
            ScreenVertex {
                screen_x: 50 << 8,
                screen_y: 10 << 8,
                depth_z: 0,
                w: 4096,
                color: 0x001F,
                tex: [0, 0],
            },
            ScreenVertex {
                screen_x: 30 << 8,
                screen_y: 30 << 8,
                depth_z: 0,
                w: 4096,
                color: 0x001F,
                tex: [0, 0],
            },
        ],
        16,
    );

    r.render_frame(&[blue, red], None);

    let idx = (15 * FB_WIDTH) + 30;
    let color = r.framebuffer[idx] & 0x7FFF;
    assert_eq!(color & 0x1F, 16);
    assert_eq!((color >> 10) & 0x1F, 14);
}

#[test]
fn test_same_id_translucent_overlap_does_not_blend_twice() {
    let mut r = Rasterizer::new();
    r.disp3dcnt = 1 << 3;
    r.set_swap_attrs(1);

    let mut base = colored_poly_with_id(
        vec![sv(10, 10, 0x7C00), sv(50, 10, 0x7C00), sv(30, 30, 0x7C00)],
        31,
        1,
    );
    for v in &mut base.vertices {
        v.depth_z = 2048;
    }
    let red = colored_poly_with_id(
        vec![sv(10, 10, 0x001F), sv(50, 10, 0x001F), sv(30, 30, 0x001F)],
        16,
        7,
    );

    r.render_frame(&[base, red.clone(), red], None);

    let idx = (15 * FB_WIDTH) + 30;
    let expected_once = alpha_blend(0x001F | (1 << 15), 0x7C00 | (1 << 15), 16);
    assert_eq!(r.framebuffer[idx] & 0x7FFF, expected_once);
}

#[test]
fn test_different_id_translucent_overlap_can_blend_twice() {
    let mut r = Rasterizer::new();
    r.disp3dcnt = 1 << 3;
    r.set_swap_attrs(1);

    let mut base = colored_poly_with_id(
        vec![sv(10, 10, 0x7C00), sv(50, 10, 0x7C00), sv(30, 30, 0x7C00)],
        31,
        1,
    );
    for v in &mut base.vertices {
        v.depth_z = 2048;
    }
    let red_7 = colored_poly_with_id(
        vec![sv(10, 10, 0x001F), sv(50, 10, 0x001F), sv(30, 30, 0x001F)],
        16,
        7,
    );
    let red_8 = colored_poly_with_id(
        vec![sv(10, 10, 0x001F), sv(50, 10, 0x001F), sv(30, 30, 0x001F)],
        16,
        8,
    );

    r.render_frame(&[base, red_7, red_8], None);

    let idx = (15 * FB_WIDTH) + 30;
    let once = alpha_blend(0x001F | (1 << 15), 0x7C00 | (1 << 15), 16) | (1 << 15);
    let expected_twice = alpha_blend(0x001F | (1 << 15), once, 16);
    assert_eq!(r.framebuffer[idx] & 0x7FFF, expected_twice);
}

#[test]
fn test_alpha_test_requires_alpha_greater_than_ref() {
    let mut r = Rasterizer::new();
    r.disp3dcnt = 1 << 2;
    r.alpha_test_ref = 16;
    let rejected = colored_poly(
        vec![sv(10, 10, 0x001F), sv(50, 10, 0x001F), sv(30, 30, 0x001F)],
        16,
    );

    r.render_frame(&[rejected], None);

    let idx = (15 * FB_WIDTH) + 30;
    assert_eq!(r.framebuffer[idx] & (1 << 15), 0);

    let accepted = colored_poly(
        vec![sv(10, 10, 0x001F), sv(50, 10, 0x001F), sv(30, 30, 0x001F)],
        17,
    );
    r.render_frame(&[accepted], None);

    assert_eq!(r.framebuffer[idx] & 0x7FFF, 0x001F);
    assert_eq!(r.framebuffer[idx] & (1 << 15), 1 << 15);
}

#[test]
fn test_texture_blend_alpha_modes_match_hardware_formula() {
    // Modulation and toon/highlight expand 5-bit alpha to 6-bit, multiply,
    // then shrink back. A naive 5-bit product would produce 8 here.
    assert_eq!(final_alpha(0, 16, 16), 9);
    assert_eq!(final_alpha(2, 16, 16), 9);
    assert_eq!(final_alpha(0, 31, 31), 31);
    assert_eq!(final_alpha(0, 1, 1), 0);

    // Decal and shadow output alpha come from POLYGON_ATTR.
    assert_eq!(final_alpha(1, 0, 16), 16);
    assert_eq!(final_alpha(3, 0, 16), 16);
}

#[test]
fn test_translucent_texture_pixel_is_not_edge_mark_eligible() {
    let mut r = Rasterizer::new();
    r.disp3dcnt = 1; // texture mapping enabled.
    let vram = vram_with_a5i3_translucent_red_texture();
    let mut p = textured_poly(vec![
        sv(10, 10, 0x7FFF),
        sv(50, 10, 0x7FFF),
        sv(30, 30, 0x7FFF),
    ]);
    p.tex_image_param = 6 << 26; // A5I3, 8x8, image offset 0.

    r.render_frame(&[p], Some(&vram));

    let idx = (15 * FB_WIDTH) + 30;
    assert_ne!(r.framebuffer[idx] & (1 << 15), 0);
    assert_eq!(r.edge_enable_buffer[idx], 0);
}

#[test]
fn test_translucent_overlay_preserves_opaque_edge_mark_flag() {
    let mut r = Rasterizer::new();
    r.disp3dcnt = (1 << 3) | (1 << 5); // alpha blend + edge marking.
    r.edge_color[0] = 0x03E0;

    let opaque = colored_poly_with_id(
        vec![
            sv(50, 50, 0x7C00),
            sv(200, 50, 0x7C00),
            sv(125, 150, 0x7C00),
        ],
        31,
        0,
    );
    let translucent = colored_poly_with_id(
        vec![
            sv(50, 50, 0x001F),
            sv(200, 50, 0x001F),
            sv(125, 150, 0x001F),
        ],
        16,
        0,
    );

    r.render_frame(&[opaque, translucent], None);

    for x in 0..FB_WIDTH {
        let idx = 100 * FB_WIDTH + x;
        if r.framebuffer[idx] & (1 << 15) != 0 {
            assert_eq!(r.framebuffer[idx] & 0x7FFF, 0x03E0);
            return;
        }
    }
    panic!("expected an edge-marked scanline pixel");
}

#[test]
fn test_translucent_pixels_and_fog_flag_with_framebuffer() {
    let mut r = Rasterizer::new();
    let mut base = colored_poly(
        vec![sv(10, 10, 0x7C00), sv(50, 10, 0x7C00), sv(30, 30, 0x7C00)],
        31,
    );
    base.attr &= !(1 << 15);
    for v in &mut base.vertices {
        v.depth_z = 1024;
    }
    let mut overlay = colored_poly(
        vec![sv(10, 10, 0x001F), sv(50, 10, 0x001F), sv(30, 30, 0x001F)],
        16,
    );
    overlay.attr |= 1 << 15;
    for v in &mut overlay.vertices {
        v.depth_z = -1024;
    }

    r.render_frame(&[base, overlay], None);

    let idx = (15 * FB_WIDTH) + 30;
    assert_eq!(r.fog_enable_buffer[idx], 0);

    let mut r = Rasterizer::new();
    let mut base = colored_poly(
        vec![sv(10, 10, 0x7C00), sv(50, 10, 0x7C00), sv(30, 30, 0x7C00)],
        31,
    );
    base.attr |= 1 << 15;
    for v in &mut base.vertices {
        v.depth_z = 1024;
    }
    let mut overlay = colored_poly(
        vec![sv(10, 10, 0x001F), sv(50, 10, 0x001F), sv(30, 30, 0x001F)],
        16,
    );
    overlay.attr &= !(1 << 15);
    for v in &mut overlay.vertices {
        v.depth_z = -1024;
    }

    r.render_frame(&[base, overlay], None);

    assert_eq!(r.fog_enable_buffer[idx], 0);
}

#[test]
fn test_translucent_zero_dot_ands_existing_fog_flag() {
    let mut r = Rasterizer::new();
    let idx = (20 * FB_WIDTH) + 20;
    r.clear_color = (1 << 15) | (0x1F << 16);
    r.clear();
    assert_eq!(r.fog_enable_buffer[idx], 1);

    let mut dot = colored_poly_with_id(
        vec![sv(20, 20, 0x001F), sv(20, 20, 0x001F), sv(20, 20, 0x001F)],
        16,
        1,
    );
    dot.attr &= !(1 << 15);

    rasterize_polygon(&dot, &mut r, None);

    assert_eq!(r.fog_enable_buffer[idx], 0);
}

#[test]
fn test_translucent_line_ands_existing_fog_flag() {
    let mut r = Rasterizer::new();
    let idx = (20 * FB_WIDTH) + 20;
    r.clear_color = (1 << 15) | (0x1F << 16);
    r.clear();
    assert_eq!(r.fog_enable_buffer[idx], 1);

    let mut line = colored_poly_with_id(
        vec![sv(20, 20, 0x001F), sv(30, 20, 0x001F), sv(20, 20, 0x001F)],
        16,
        1,
    );
    line.attr &= !(1 << 15);

    rasterize_polygon(&line, &mut r, None);

    assert_eq!(r.fog_enable_buffer[idx], 0);
}

#[test]
fn test_clear_color_fills_framebuffer() {
    let mut r = Rasterizer::new();
    r.disp3dcnt = 1;
    // Set clear color to red with alpha = 1.
    r.clear_color = 0x001F | (0x1F << 16);
    r.render_frame(&[], None);
    // Every pixel should be red with alpha set.
    for &p in &r.framebuffer {
        assert_eq!(p & 0x7FFF, 0x001F);
        assert_eq!(p & (1 << 15), 1 << 15);
    }
}

#[test]
fn test_disp3dcnt_bit0_does_not_gate_rasterization() {
    let mut r = Rasterizer::new();
    // DISP3DCNT bit 0 is texture mapping enable, not a 3D enable bit.
    r.disp3dcnt = 0;
    let p = poly(vec![
        sv(10, 10, 0x001F),
        sv(50, 10, 0x001F),
        sv(30, 30, 0x001F),
    ]);
    r.render_frame(&[p], None);
    let idx = (15 * FB_WIDTH) + 30;
    assert_eq!(r.framebuffer[idx] & 0x7FFF, 0x001F);
}

#[test]
fn test_disp3dcnt_bit0_disables_texture_sampling() {
    let mut r = Rasterizer::new();
    r.disp3dcnt = 0;
    let vram = vram_with_direct_red_texture();
    let p = textured_poly(vec![
        sv(10, 10, 0x7FFF),
        sv(50, 10, 0x7FFF),
        sv(30, 30, 0x7FFF),
    ]);

    r.render_frame(&[p], Some(&vram));

    let idx = (15 * FB_WIDTH) + 30;
    assert_eq!(r.framebuffer[idx] & 0x7FFF, 0x7FFF);
}

#[test]
fn test_disp3dcnt_bit0_enables_texture_sampling() {
    let mut r = Rasterizer::new();
    r.disp3dcnt = 1;
    let vram = vram_with_direct_red_texture();
    let p = textured_poly(vec![
        sv(10, 10, 0x7FFF),
        sv(50, 10, 0x7FFF),
        sv(30, 30, 0x7FFF),
    ]);

    r.render_frame(&[p], Some(&vram));

    let idx = (15 * FB_WIDTH) + 30;
    assert_eq!(r.framebuffer[idx] & 0x7FFF, 0x001F);
}

#[test]
fn test_polygon_attr_with_no_surfaces_hides_polygon() {
    let mut r = Rasterizer::new();
    let mut p = poly(vec![
        sv(10, 10, 0x001F),
        sv(50, 10, 0x001F),
        sv(30, 30, 0x001F),
    ]);
    p.attr &= !((1 << 6) | (1 << 7));

    r.render_frame(&[p], None);

    let idx = (15 * FB_WIDTH) + 30;
    assert_eq!(r.framebuffer[idx] & (1 << 15), 0);
}

#[test]
fn test_triangle_strip_inverted_facing_rule_renders_front_surface() {
    let mut r = Rasterizer::new();
    let mut p = poly(vec![
        sv(10, 10, 0x001F),
        sv(20, 10, 0x001F),
        sv(10, 20, 0x001F),
    ]);
    p.attr &= !(1 << 6); // front surface only
    p.front_area_negative = false;

    r.render_frame(&[p], None);

    let idx = 12 * FB_WIDTH + 12;
    assert_eq!(r.framebuffer[idx] & 0x7FFF, 0x001F);
}

#[test]
fn test_polygon_attr_alpha_zero_draws_wireframe() {
    let mut r = Rasterizer::new();
    let mut p = poly(vec![
        sv(10, 10, 0x001F),
        sv(50, 10, 0x001F),
        sv(30, 30, 0x001F),
    ]);
    p.attr &= !(0x1F << 16);

    r.render_frame(&[p], None);

    let edge_idx = (10 * FB_WIDTH) + 30;
    assert_eq!(r.framebuffer[edge_idx] & 0x7FFF, 0x001F);
    assert_eq!(r.framebuffer[edge_idx] & (1 << 15), 1 << 15);

    let inner_idx = (15 * FB_WIDTH) + 30;
    assert_eq!(r.framebuffer[inner_idx] & (1 << 15), 0);
}

#[test]
fn test_wireframe_a5i3_alpha_zero_texels_skip_pixels() {
    let mut r = Rasterizer::new();
    r.disp3dcnt = 1; // texture mapping enabled.
    let vram = vram_with_a5i3_red_texture_alpha(0);
    let mut p = poly(vec![
        sv(10, 10, 0x7FFF),
        sv(50, 10, 0x7FFF),
        sv(30, 30, 0x7FFF),
    ]);
    p.attr &= !(0x1F << 16); // alpha=0 selects wireframe.
    p.tex_image_param = 6 << 26; // A5I3, 8x8, image offset 0.

    r.render_frame(&[p], Some(&vram));

    let edge_idx = (10 * FB_WIDTH) + 30;
    assert_eq!(r.framebuffer[edge_idx] & (1 << 15), 0);
}

#[test]
fn test_wireframe_a5i3_translucent_texels_are_not_edge_marked() {
    let mut r = Rasterizer::new();
    r.disp3dcnt = 1; // texture mapping enabled.
    let vram = vram_with_a5i3_translucent_red_texture();
    let mut p = poly(vec![
        sv(10, 10, 0x7FFF),
        sv(50, 10, 0x7FFF),
        sv(30, 30, 0x7FFF),
    ]);
    p.attr &= !(0x1F << 16); // alpha=0 selects wireframe.
    p.tex_image_param = 6 << 26; // A5I3, 8x8, image offset 0.

    r.render_frame(&[p], Some(&vram));

    let edge_idx = (10 * FB_WIDTH) + 30;
    assert_eq!(r.framebuffer[edge_idx] & 0x7FFF, 0x001F);
    assert_eq!(r.framebuffer[edge_idx] & (1 << 15), 1 << 15);
    assert_eq!(r.edge_enable_buffer[edge_idx], 0);
}

#[test]
fn test_degenerate_triangle_draws_line_segment() {
    let mut r = Rasterizer::new();
    let mut p = poly(vec![
        sv(10, 10, 0x001F),
        sv(50, 10, 0x001F),
        sv(10, 10, 0x001F),
    ]);
    p.attr &= !(1 << 6); // Hide back side; line segments ignore facing.

    r.render_frame(&[p], None);

    let line_idx = (10 * FB_WIDTH) + 30;
    assert_eq!(r.framebuffer[line_idx] & 0x7FFF, 0x001F);
    assert_eq!(r.framebuffer[line_idx] & (1 << 15), 1 << 15);

    let off_line_idx = (11 * FB_WIDTH) + 30;
    assert_eq!(r.framebuffer[off_line_idx] & (1 << 15), 0);
}

#[test]
fn test_degenerate_line_ignores_front_back_surface_bits() {
    let mut r = Rasterizer::new();
    let mut p = poly(vec![
        sv(10, 10, 0x001F),
        sv(50, 10, 0x001F),
        sv(10, 10, 0x001F),
    ]);
    p.attr &= !((1 << 6) | (1 << 7));

    r.render_frame(&[p], None);

    let line_idx = 10 * FB_WIDTH + 30;
    assert_eq!(r.framebuffer[line_idx] & 0x7FFF, 0x001F);
    assert_eq!(r.framebuffer[line_idx] & (1 << 15), 1 << 15);
}

#[test]
fn test_zero_dot_polygon_draws_first_vertex_pixel() {
    let mut r = Rasterizer::new();
    let p = poly(vec![
        sv(10, 10, 0x001F),
        sv(10, 10, 0x03E0),
        sv(10, 10, 0x7C00),
    ]);

    r.render_frame(&[p], None);

    let idx = (10 * FB_WIDTH) + 10;
    assert_eq!(r.framebuffer[idx] & 0x7FFF, 0x001F);
    assert_eq!(r.framebuffer[idx] & (1 << 15), 1 << 15);
}

#[test]
fn test_zero_dot_polygon_uses_translucent_alpha() {
    let mut r = Rasterizer::new();
    r.disp3dcnt = 1 << 3;
    let mut base = colored_poly_with_id(
        vec![sv(10, 10, 0x7C00), sv(50, 10, 0x7C00), sv(30, 30, 0x7C00)],
        31,
        1,
    );
    for v in &mut base.vertices {
        v.depth_z = 2048;
    }
    let point = colored_poly_with_id(
        vec![sv(30, 15, 0x001F), sv(30, 15, 0x03E0), sv(30, 15, 0x7C00)],
        16,
        2,
    );

    r.render_frame(&[base, point], None);

    let idx = (15 * FB_WIDTH) + 30;
    let expected = alpha_blend(0x001F | (1 << 15), 0x7C00 | (1 << 15), 16);
    assert_eq!(r.framebuffer[idx] & 0x7FFF, expected);
    assert_eq!(r.edge_enable_buffer[idx], 0);
}

#[test]
fn test_zero_dot_polygon_respects_alpha_test() {
    let mut r = Rasterizer::new();
    r.disp3dcnt = 1 << 2;
    r.alpha_test_ref = 16;
    let point = colored_poly_with_id(
        vec![sv(30, 15, 0x001F), sv(30, 15, 0x03E0), sv(30, 15, 0x7C00)],
        16,
        2,
    );

    r.render_frame(&[point], None);

    let idx = (15 * FB_WIDTH) + 30;
    assert_eq!(r.framebuffer[idx] & (1 << 15), 0);
}

#[test]
fn test_shadow_mask_polygon_does_not_write_color() {
    let mut r = Rasterizer::new();
    let p = shadow_poly(
        vec![sv(10, 10, 0x0000), sv(50, 10, 0x0000), sv(30, 30, 0x0000)],
        0,
    );

    r.render_frame(&[p], None);

    let idx = (15 * FB_WIDTH) + 30;
    assert_eq!(r.framebuffer[idx] & (1 << 15), 0);
    assert_eq!(r.shadow_stencil[idx], 1);
}

#[test]
fn test_visible_shadow_draws_only_where_mask_is_clear() {
    let mut r = Rasterizer::new();
    r.set_swap_attrs(1);
    let mut base = colored_poly(
        vec![sv(10, 10, 0x7C00), sv(50, 10, 0x7C00), sv(30, 30, 0x7C00)],
        31,
    );
    for v in &mut base.vertices {
        v.depth_z = 1024;
    }
    let mut mask = shadow_poly(
        vec![sv(10, 10, 0x0000), sv(50, 10, 0x0000), sv(30, 30, 0x0000)],
        0,
    );
    let mut visible = shadow_poly(
        vec![sv(10, 10, 0x0000), sv(50, 10, 0x0000), sv(30, 30, 0x0000)],
        1,
    );
    for v in &mut visible.vertices {
        v.depth_z = 0;
    }
    for v in &mut mask.vertices {
        v.depth_z = 0;
    }

    r.render_frame(&[base.clone(), visible.clone()], None);

    let idx = (15 * FB_WIDTH) + 30;
    assert_eq!(r.framebuffer[idx] & 0x7FFF, 0x0000);

    r.render_frame(&[base, mask, visible], None);

    assert_eq!(r.framebuffer[idx] & 0x7FFF, 0x7C00);
    assert_eq!(r.shadow_stencil[idx], 0);
}

#[test]
fn test_toon_mode_uses_vertex_red_as_table_index() {
    let mut r = Rasterizer::new();
    r.toon_table[4] = 0x001F;
    let p = toon_poly(vec![
        sv(10, 10, 0x0004),
        sv(50, 10, 0x0004),
        sv(30, 30, 0x0004),
    ]);

    r.render_frame(&[p], None);

    let idx = (15 * FB_WIDTH) + 30;
    assert_eq!(r.framebuffer[idx] & 0x7FFF, 0x001F);
}

#[test]
fn test_highlight_mode_adds_toon_color_offset() {
    let mut r = Rasterizer::new();
    r.disp3dcnt = 1 << 1;
    r.toon_table[4] = 0x0010;
    let p = toon_poly(vec![
        sv(10, 10, 0x0004),
        sv(50, 10, 0x0004),
        sv(30, 30, 0x0004),
    ]);

    r.render_frame(&[p], None);

    let idx = (15 * FB_WIDTH) + 30;
    assert!((r.framebuffer[idx] & 0x1F) > 0x10);
}

#[test]
fn test_low_vertex_color_interpolation_preserves_constant_channel() {
    let mut r = Rasterizer::new();
    let p = poly(vec![
        sv(10, 10, 0x0004),
        sv(50, 10, 0x0004),
        sv(30, 30, 0x0004),
    ]);

    r.render_frame(&[p], None);

    let idx = (15 * FB_WIDTH) + 30;
    assert_eq!(r.framebuffer[idx] & 0x1F, 4);
}

#[test]
fn test_off_screen_triangle_doesnt_crash() {
    let mut r = Rasterizer::new();
    r.disp3dcnt = 1;
    // Triangle entirely above the screen.
    let p = poly(vec![
        sv(10, -50, 0x001F),
        sv(50, -50, 0x001F),
        sv(30, -30, 0x001F),
    ]);
    r.render_frame(&[p], None);
    // No writes; framebuffer stays clear.
    for &px in &r.framebuffer {
        assert_eq!(px & (1 << 15), 0);
    }
}
