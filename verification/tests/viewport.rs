#![allow(unused_imports)]

use nds_core::gpu3d::viewport::transform_vertex;
use nds_core::gpu3d::{Vertex, Viewport, ONE};

fn vtx(clip: [i32; 4]) -> Vertex {
    Vertex { clip, color: 0x7FFF, tex: [0, 0] }
}

#[test]
fn test_perspective_divide_centers_at_screen_center() {
    // Clip (0, 0, 0, 1) → NDC (0, 0, 0) → exact center of the
    // inclusive [0, 255] × [0, 191] viewport: (127.5, 95.5).
    let v = vtx([0, 0, 0, ONE]);
    let s = transform_vertex(&v, Viewport::full_screen());
    // 127.5 px in 24.8 = 127 × 256 + 128 = 32640
    // 95.5 px in 24.8 = 95 × 256 + 128 = 24448
    assert_eq!(s.screen_x, 127 * 256 + 128);
    assert_eq!(s.screen_y, 95 * 256 + 128);
}

#[test]
fn test_perspective_divide_right_edge() {
    // Clip (w, 0, 0, w) → NDC (+1, 0, 0) → screen right (x = vp_w).
    let v = vtx([ONE, 0, 0, ONE]);
    let s = transform_vertex(&v, Viewport::full_screen());
    // Width = 255, so right edge x_8 = 255 * 256 = 65280.
    assert_eq!(s.screen_x, 255 * 256);
}

#[test]
fn test_perspective_divide_top_edge() {
    // Clip (0, w, 0, w) → NDC (0, +1, 0) → screen top (y = 0).
    let v = vtx([0, ONE, 0, ONE]);
    let s = transform_vertex(&v, Viewport::full_screen());
    assert_eq!(s.screen_y, 0);
}

#[test]
fn test_perspective_divide_w_double_halves_screen_pos() {
    // Doubling w doubles distance — should pull screen point halfway
    // back to center.
    let near = vtx([ONE, 0, 0, ONE]);                  // x = vp_w
    let far  = vtx([ONE, 0, 0, 2 * ONE]);              // x = vp_w/2 + center
    let s_near = transform_vertex(&near, Viewport::full_screen());
    let s_far  = transform_vertex(&far,  Viewport::full_screen());
    // s_near.x ≈ 255 × 256 = 65280
    // s_far.x  ≈ 128 × 256 + (½ × 128 × 256) = 32768 + 16384 = 49152
    let center = 128 * 256;
    assert_eq!(s_near.screen_x, 255 * 256);
    // s_far should be halfway between center and s_near.
    let halfway = (center + s_near.screen_x) / 2;
    // Within 1 pixel of the predicted halfway (rounding).
    assert!((s_far.screen_x - halfway).abs() <= 256, "got {}, expected ≈ {}", s_far.screen_x, halfway);
}

#[test]
fn test_viewport_param_unpacks_correctly() {
    // x1=10, y1=20, x2=100, y2=180
    let v = Viewport::from_param((180 << 24) | (100 << 16) | (20 << 8) | 10);
    assert_eq!(v.x1, 10);
    assert_eq!(v.y1, 20);
    assert_eq!(v.x2, 100);
    assert_eq!(v.y2, 180);
    // Inclusive widths: 100 - 10 + 1 = 91, 180 - 20 + 1 = 161.
    assert_eq!(v.width(), 91);
    assert_eq!(v.height(), 161);
}
