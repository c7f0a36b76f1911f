#![allow(unused_imports)]

use nds_core::gpu3d::vertex::{decode_vtx10, decode_vtx16, decode_vtx_diff};
use nds_core::gpu3d::{Matrix, MatrixStacks, MtxMode, PrimitiveType, VertexState, ONE};

fn ident_stacks() -> MatrixStacks {
    // Projection and position both identity → clip == object space.
    MatrixStacks::new()
}

#[test]
fn test_triangle_assembly() {
    let mut v = VertexState::new();
    let s = ident_stacks();
    v.begin(PrimitiveType::Triangles);
    v.submit_vertex([ONE, 0, 0], &s);
    v.submit_vertex([0, ONE, 0], &s);
    assert!(v.polygon_buffer.is_empty(), "2 verts shouldn't emit yet");
    v.submit_vertex([0, 0, ONE], &s);
    assert_eq!(v.polygon_buffer.len(), 1);
    assert_eq!(v.polygon_buffer[0].vertices.len(), 3);
}

#[test]
fn test_quad_assembly() {
    let mut v = VertexState::new();
    let s = ident_stacks();
    v.begin(PrimitiveType::Quads);
    for i in 0..4 {
        v.submit_vertex([i * ONE, 0, 0], &s);
    }
    assert_eq!(v.polygon_buffer.len(), 1);
    assert_eq!(v.polygon_buffer[0].vertices.len(), 4);
}

#[test]
fn test_triangle_strip_winding() {
    let mut v = VertexState::new();
    let s = ident_stacks();
    v.begin(PrimitiveType::TriangleStrip);
    // 4 vertices → 2 triangles
    v.submit_vertex([0, 0, 0], &s);
    v.submit_vertex([ONE, 0, 0], &s);
    v.submit_vertex([0, ONE, 0], &s);
    assert_eq!(v.polygon_buffer.len(), 1);
    let t0 = &v.polygon_buffer[0];
    assert_eq!(t0.vertices[0].clip[0], 0);
    assert_eq!(t0.vertices[1].clip[0], ONE);
    assert_eq!(t0.vertices[2].clip[0], 0);
    assert!(t0.front_area_negative);

    v.submit_vertex([ONE, ONE, 0], &s);
    assert_eq!(v.polygon_buffer.len(), 2);
    // Second triangle keeps connected order (v1, v2, v3), but its
    // front-facing area rule is inverted.
    let t1 = &v.polygon_buffer[1];
    assert_eq!(t1.vertices[0].clip[0], ONE); // v1
    assert_eq!(t1.vertices[1].clip[0], 0); // v2
    assert_eq!(t1.vertices[2].clip[0], ONE); // v3
    assert!(!t1.front_area_negative);
}

#[test]
fn test_quad_strip_assembly() {
    let mut v = VertexState::new();
    let s = ident_stacks();
    v.begin(PrimitiveType::QuadStrip);
    v.submit_vertex([0, 0, 0], &s);
    v.submit_vertex([0, ONE, 0], &s);
    v.submit_vertex([ONE, 0, 0], &s);
    v.submit_vertex([ONE, ONE, 0], &s);
    assert_eq!(v.polygon_buffer.len(), 1);
    // The strip orders as 0,1,3,2 — so vertices[2] is index 3 = (1,1,0),
    // and vertices[3] is index 2 = (1,0,0).
    let q = &v.polygon_buffer[0];
    assert_eq!(q.vertices[2].clip[0], ONE);
    assert_eq!(q.vertices[2].clip[1], ONE);
    assert_eq!(q.vertices[3].clip[0], ONE);
    assert_eq!(q.vertices[3].clip[1], 0);
}

#[test]
fn test_vtx16_decode() {
    let p0 = 0x0010_FFF0u32; // y = 0x0010, x = 0xFFF0 = -16
    let p1 = 0x0000_0020u32; // z = 0x0020
    let r = decode_vtx16([p0, p1]);
    assert_eq!(r, [-16, 0x10, 0x20]);
}

#[test]
fn test_vtx10_decode_negative() {
    // 10-bit value 0x3FF = -1 (sign bit set).
    let param = 0x3FF | (0x3FF << 10) | (0x3FF << 20);
    let r = decode_vtx10(param);
    let neg_one_in_19_12 = -(1 << 6); // shifted left by 6
    assert_eq!(r, [neg_one_in_19_12, neg_one_in_19_12, neg_one_in_19_12]);
}

#[test]
fn test_color_packing() {
    let mut v = VertexState::new();
    v.set_color(0x7FFF);
    assert_eq!(v.current_color, 0x7FFF);
    v.set_color(0x1_8000); // upper bits ignored
    assert_eq!(v.current_color, 0);
}

#[test]
fn test_vertex_carries_color_and_texcoord() {
    let mut v = VertexState::new();
    let s = ident_stacks();
    v.set_color(0x1F);
    v.set_texcoord(0x0010_FFF0u32, &s);
    v.begin(PrimitiveType::Triangles);
    for _ in 0..3 {
        v.submit_vertex([0, 0, 0], &s);
    }
    let p = &v.polygon_buffer[0];
    assert_eq!(p.vertices[0].color, 0x1F);
    assert_eq!(p.vertices[0].tex, [-16, 0x10]);
}

#[test]
fn test_texcoord_transform_mode_1_uses_texture_matrix() {
    let mut v = VertexState::new();
    let mut s = ident_stacks();
    s.set_mode(MtxMode::Texture);
    s.load(Matrix::identity().mul_translate(4 * ONE, -2 * ONE, 0));

    v.set_tex_image_param(1 << 30);
    v.set_texcoord(0x0020_0010u32, &s);

    assert_eq!(v.current_tex, [0x14, 0x1E]);
}

#[test]
fn test_texcoord_transform_mode_0_ignores_texture_matrix() {
    let mut v = VertexState::new();
    let mut s = ident_stacks();
    s.set_mode(MtxMode::Texture);
    s.load(Matrix::identity().mul_translate(4 * ONE, -2 * ONE, 0));

    v.set_tex_image_param(0);
    v.set_texcoord(0x0020_0010u32, &s);

    assert_eq!(v.current_tex, [0x10, 0x20]);
}

#[test]
fn test_texcoord_transform_mode_1_uses_one_sixteenth_matrix_terms() {
    let mut v = VertexState::new();
    let mut s = ident_stacks();
    let mut m = Matrix::identity();
    // columns, so m[8]/m[9] contribute one texcoord unit when set to 1.0.
    m.m[8] = ONE;
    m.m[9] = -2 * ONE;
    s.set_mode(MtxMode::Texture);
    s.load(m);

    v.set_tex_image_param(1 << 30);
    v.set_texcoord(0x0020_0010u32, &s);

    assert_eq!(v.current_tex, [0x11, 0x1E]);
}

#[test]
fn test_texcoord_transform_mode_2_uses_normal_source() {
    let mut v = VertexState::new();
    let mut s = ident_stacks();
    s.set_mode(MtxMode::Texture);
    s.load(Matrix::identity().mul_scale(8 * ONE, 4 * ONE, ONE));

    v.set_tex_image_param(2 << 30);
    v.set_texcoord((20u32 << 16) | 10, &s);
    v.apply_normal_texcoord_transform([0x100, 0x100, 0], &s);

    assert_eq!(v.current_tex, [10 + (4 << 4), 20 + (2 << 4)]);
}

#[test]
fn test_texcoord_transform_mode_2_replaces_matrix_bottom_row_with_texcoord() {
    let mut v = VertexState::new();
    let mut s = ident_stacks();
    let mut m = Matrix::identity().mul_scale(8 * ONE, 4 * ONE, ONE);
    // TEXCOORD S/T values, so m[12]/m[13] must not contribute.
    m.m[12] = 100 * ONE;
    m.m[13] = -100 * ONE;
    s.set_mode(MtxMode::Texture);
    s.load(m);

    v.set_tex_image_param(2 << 30);
    v.set_texcoord((20u32 << 16) | 10, &s);
    v.apply_normal_texcoord_transform([0x100, 0x100, 0], &s);

    assert_eq!(v.current_tex, [10 + (4 << 4), 20 + (2 << 4)]);
}

#[test]
fn test_texcoord_transform_mode_3_uses_vertex_source() {
    let mut v = VertexState::new();
    let mut s = ident_stacks();
    s.set_mode(MtxMode::Texture);
    s.load(Matrix::identity().mul_scale(2 * ONE, 3 * ONE, ONE));

    v.set_tex_image_param(3 << 30);
    v.set_texcoord(0, &s);
    v.begin(PrimitiveType::Triangles);
    for _ in 0..3 {
        v.submit_vertex([2 * ONE, 4 * ONE, 0], &s);
    }

    assert_eq!(v.polygon_buffer[0].vertices[0].tex, [4 << 4, 12 << 4]);
}

#[test]
fn test_texcoord_transform_mode_3_replaces_matrix_bottom_row_with_texcoord() {
    let mut v = VertexState::new();
    let mut s = ident_stacks();
    let mut m = Matrix::identity().mul_scale(2 * ONE, 3 * ONE, ONE);
    // TEXCOORD S/T values when each VTX command executes.
    m.m[12] = 100 * ONE;
    m.m[13] = -100 * ONE;
    s.set_mode(MtxMode::Texture);
    s.load(m);

    v.set_tex_image_param(3 << 30);
    v.set_texcoord((8u32 << 16) | 4, &s);
    v.begin(PrimitiveType::Triangles);
    for _ in 0..3 {
        v.submit_vertex([2 * ONE, 4 * ONE, 0], &s);
    }

    assert_eq!(
        v.polygon_buffer[0].vertices[0].tex,
        [4 + (4 << 4), 8 + (12 << 4)]
    );
}

#[test]
fn test_polygon_attr_snapshot_per_polygon() {
    let mut v = VertexState::new();
    let s = ident_stacks();
    v.set_polygon_attr(0xAAAA_AAAA);
    assert_eq!(v.polygon_attr, 0);
    v.begin(PrimitiveType::Triangles);
    for _ in 0..3 {
        v.submit_vertex([0, 0, 0], &s);
    }
    assert_eq!(v.polygon_buffer[0].attr, 0xAAAA_AAAA);

    v.set_polygon_attr(0xBBBB_BBBB);
    v.begin(PrimitiveType::Triangles);
    for _ in 0..3 {
        v.submit_vertex([0, 0, 0], &s);
    }
    assert_eq!(v.polygon_buffer[1].attr, 0xBBBB_BBBB);
}

#[test]
fn test_polygon_attr_write_during_list_defers_until_next_begin() {
    let mut v = VertexState::new();
    let s = ident_stacks();

    v.set_polygon_attr(0x1111_1111);
    v.begin(PrimitiveType::Triangles);
    v.submit_vertex([0, 0, 0], &s);
    v.set_polygon_attr(0x2222_2222);
    v.submit_vertex([0, 0, 0], &s);
    v.submit_vertex([0, 0, 0], &s);

    assert_eq!(v.polygon_buffer[0].attr, 0x1111_1111);

    v.begin(PrimitiveType::Triangles);
    for _ in 0..3 {
        v.submit_vertex([0, 0, 0], &s);
    }

    assert_eq!(v.polygon_buffer[1].attr, 0x2222_2222);
}

#[test]
fn test_repeated_polygon_attr_writes_during_list_keep_only_last_pending_value() {
    let mut v = VertexState::new();
    let s = ident_stacks();

    v.set_polygon_attr(0x1111_1111);
    v.begin(PrimitiveType::Triangles);
    for _ in 0..3 {
        v.submit_vertex([0, 0, 0], &s);
    }
    assert_eq!(v.polygon_buffer[0].attr, 0x1111_1111);

    v.set_polygon_attr(0x2222_2222);
    v.set_polygon_attr(0x3333_3333);
    v.set_polygon_attr(0x4444_4444);
    for _ in 0..3 {
        v.submit_vertex([0, 0, 0], &s);
    }
    assert_eq!(v.polygon_buffer[1].attr, 0x1111_1111);

    v.begin(PrimitiveType::Triangles);
    for _ in 0..3 {
        v.submit_vertex([0, 0, 0], &s);
    }

    assert_eq!(v.polygon_buffer[2].attr, 0x4444_4444);
}

#[test]
fn test_begin_vtxs_restarts_list_and_discards_partial_vertices() {
    let mut v = VertexState::new();
    let s = ident_stacks();

    v.begin(PrimitiveType::Triangles);
    v.submit_vertex([0, 0, 0], &s);
    v.submit_vertex([ONE, 0, 0], &s);

    v.begin(PrimitiveType::Triangles);
    v.submit_vertex([0, 0, 0], &s);
    v.submit_vertex([ONE, 0, 0], &s);
    v.submit_vertex([0, ONE, 0], &s);

    assert_eq!(v.polygon_buffer.len(), 1);
    assert_eq!(v.polygon_buffer[0].vertices[0].clip[0], 0);
    assert_eq!(v.polygon_buffer[0].vertices[1].clip[0], ONE);
    assert_eq!(v.polygon_buffer[0].vertices[2].clip[1], ONE);
}

#[test]
fn test_strip_incomplete_list_detection_matches_primitive_vertex_counts() {
    let mut v = VertexState::new();
    let s = ident_stacks();

    v.begin(PrimitiveType::TriangleStrip);
    assert!(!v.has_incomplete_polygon_list());
    v.submit_vertex([0, 0, 0], &s);
    assert!(v.has_incomplete_polygon_list());
    v.submit_vertex([ONE, 0, 0], &s);
    assert!(v.has_incomplete_polygon_list());
    v.submit_vertex([0, ONE, 0], &s);
    assert!(!v.has_incomplete_polygon_list());
    v.submit_vertex([ONE, ONE, 0], &s);
    assert!(!v.has_incomplete_polygon_list());

    v.begin(PrimitiveType::QuadStrip);
    assert!(!v.has_incomplete_polygon_list());
    for i in 0..3 {
        v.submit_vertex([i * ONE, 0, 0], &s);
        assert!(v.has_incomplete_polygon_list());
    }
    v.submit_vertex([3 * ONE, 0, 0], &s);
    assert!(!v.has_incomplete_polygon_list());
    v.submit_vertex([4 * ONE, 0, 0], &s);
    assert!(v.has_incomplete_polygon_list());
    v.submit_vertex([5 * ONE, 0, 0], &s);
    assert!(!v.has_incomplete_polygon_list());
}

#[test]
fn test_separate_triangles_snapshot_texture_per_polygon() {
    let mut v = VertexState::new();
    let s = ident_stacks();

    v.set_tex_image_param(0x1111);
    v.set_palette_base(0x0020);
    v.begin(PrimitiveType::Triangles);
    for _ in 0..3 {
        v.submit_vertex([0, 0, 0], &s);
    }

    v.set_tex_image_param(0x2222);
    v.set_palette_base(0x0040);
    for _ in 0..3 {
        v.submit_vertex([0, 0, 0], &s);
    }

    assert_eq!(v.polygon_buffer[0].tex_image_param, 0x1111);
    assert_eq!(v.polygon_buffer[0].palette_base, 0x0020);
    assert_eq!(v.polygon_buffer[1].tex_image_param, 0x2222);
    assert_eq!(v.polygon_buffer[1].palette_base, 0x0040);
}

#[test]
fn test_triangle_strip_keeps_texture_state_from_begin() {
    let mut v = VertexState::new();
    let s = ident_stacks();

    v.set_tex_image_param(0x1111);
    v.set_palette_base(0x0020);
    v.begin(PrimitiveType::TriangleStrip);
    v.submit_vertex([0, 0, 0], &s);
    v.submit_vertex([ONE, 0, 0], &s);
    v.submit_vertex([0, ONE, 0], &s);

    v.set_tex_image_param(0x2222);
    v.set_palette_base(0x0040);
    v.submit_vertex([ONE, ONE, 0], &s);

    assert_eq!(v.polygon_buffer.len(), 2);
    assert_eq!(v.polygon_buffer[0].tex_image_param, 0x1111);
    assert_eq!(v.polygon_buffer[0].palette_base, 0x0020);
    assert_eq!(v.polygon_buffer[1].tex_image_param, 0x1111);
    assert_eq!(v.polygon_buffer[1].palette_base, 0x0020);

    v.begin(PrimitiveType::Triangles);
    for _ in 0..3 {
        v.submit_vertex([0, 0, 0], &s);
    }
    assert_eq!(v.polygon_buffer[2].tex_image_param, 0x2222);
    assert_eq!(v.polygon_buffer[2].palette_base, 0x0040);
}

#[test]
fn test_palette_base_masks_to_thirteen_bits() {
    let mut v = VertexState::new();

    v.set_palette_base(0xFFFF);

    assert_eq!(v.palette_base, 0x1FFF);
}

#[test]
fn test_submit_without_begin_is_ignored() {
    let mut v = VertexState::new();
    let s = ident_stacks();
    v.submit_vertex([ONE, 0, 0], &s);
    assert!(v.polygon_buffer.is_empty());
    assert!(v.vertex_buffer.is_empty());
    assert_eq!(v.last_pos, [0, 0, 0]);
}

#[test]
fn test_end_vtxs_is_noop_inside_active_list() {
    let mut v = VertexState::new();
    let s = ident_stacks();

    v.begin(PrimitiveType::Triangles);
    v.submit_vertex([0, 0, 0], &s);
    v.end();
    v.submit_vertex([ONE, 0, 0], &s);
    v.submit_vertex([0, ONE, 0], &s);

    assert_eq!(v.polygon_buffer.len(), 1);
    assert!(v.list_active);
    assert_eq!(v.primitive, Some(PrimitiveType::Triangles));
    assert!(v.vertex_buffer.is_empty());
}

#[test]
fn test_clip_transform_applies() {
    let mut v = VertexState::new();
    let mut s = MatrixStacks::new();
    s.set_mode(MtxMode::Position);
    s.load(Matrix::identity().mul_translate(5 * ONE, 0, 0));
    v.begin(PrimitiveType::Triangles);
    v.submit_vertex([ONE, 0, 0], &s);
    // Object (1, 0, 0) translated by (5, 0, 0) → clip (6, 0, 0, 1).
    let r = &v.vertex_buffer[0];
    assert_eq!(r.clip[0], 6 * ONE);
    assert_eq!(r.clip[3], ONE);
}

#[test]
fn test_vtx_diff_adds_to_last() {
    let last = [ONE, 2 * ONE, 3 * ONE];
    // VTX_DIFF deltas are already in 12-fractional-bit coordinate units.
    let param = 0x0001u32 | (0x3FFu32 << 10);
    let r = decode_vtx_diff(param, last);
    assert_eq!(r[0], last[0] + 1);
    assert_eq!(r[1], last[1] - 1);
    assert_eq!(r[2], last[2]);
}

#[test]
fn test_vtx_diff_max_range_is_one_eighth_unit() {
    let last = [0, 0, 0];
    let param = 0x1FFu32 | (0x200u32 << 10) | (0x001u32 << 20);

    let r = decode_vtx_diff(param, last);

    assert_eq!(r, [0x1FF, -0x200, 1]);
    assert!(r[0] < ONE / 8, "positive max remains below +0.125");
    assert_eq!(r[1], -ONE / 8, "negative max is exactly -0.125");
}
