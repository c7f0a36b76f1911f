#![allow(unused_imports)]

use nds_core::gpu3d::boxtest::{box_intersects_view_volume, clip_plane_value};
use nds_core::gpu3d::engine::format_vec_test_result;
use nds_core::gpu3d::{
    Engine3d, GxCmd, GxOp, Matrix, MtxMode, Polygon, PrimitiveType, ScreenPolygon, ScreenVertex, Vertex,
    ONE, POLYGON_BUF_LIMIT, VERTEX_BUF_LIMIT,
};

#[test]
fn test_full_pipeline_triangle_to_screen() {
    let mut e = Engine3d::new();

    // BEGIN_VTXS triangles
    e.dispatch(GxOp {
        cmd: GxCmd::BeginVtxs.opcode(),
        params: vec![0],
    });
    // Three vertices forming a triangle in the canonical view volume.
    // VTX_16 packed format: y << 16 | x, _ << 16 | z.
    // Vertex 1: (0, 0, 0.5)
    e.dispatch(GxOp {
        cmd: GxCmd::Vtx16.opcode(),
        params: vec![
            0,                         // y=0, x=0
            (ONE / 2) as u32 & 0xFFFF, // z=0.5
        ],
    });
    e.dispatch(GxOp {
        cmd: GxCmd::Vtx16.opcode(),
        params: vec![
            (((ONE / 4) as u32) & 0xFFFF), // y=0, x=0.25
            (ONE / 2) as u32 & 0xFFFF,
        ],
    });
    e.dispatch(GxOp {
        cmd: GxCmd::Vtx16.opcode(),
        params: vec![
            ((ONE / 4) as u32 & 0xFFFF) << 16, // y=0.25, x=0
            (ONE / 2) as u32 & 0xFFFF,
        ],
    });

    // Buffer should have one screen polygon.
    assert_eq!(e.geometry_polygons.len(), 1);
    let poly = &e.geometry_polygons[0];
    assert_eq!(poly.vertices.len(), 3);
    // All three vertices land within the screen rectangle.
    for v in &poly.vertices {
        assert!(v.screen_x >= 0);
        assert!(v.screen_y >= 0);
    }
}

#[test]
fn test_swap_buffers_moves_geometry_to_raster() {
    let mut e = Engine3d::new();
    e.dispatch(GxOp {
        cmd: GxCmd::PolygonAttr.opcode(),
        params: vec![(1 << 13) | (0x1F << 16) | (1 << 6) | (1 << 7)],
    });
    // Run a zero-dot triangle and opt it out of DISP_1DOT_DEPTH culling.
    e.dispatch(GxOp {
        cmd: GxCmd::BeginVtxs.opcode(),
        params: vec![0],
    });
    for _ in 0..3 {
        e.dispatch(GxOp {
            cmd: GxCmd::Vtx16.opcode(),
            params: vec![0, (ONE / 2) as u32 & 0xFFFF],
        });
    }
    assert_eq!(e.geometry_polygons.len(), 1);
    assert!(e.raster_polygons.is_empty());

    // Queue swap, then trigger.
    e.dispatch(GxOp {
        cmd: GxCmd::SwapBuffers.opcode(),
        params: vec![0],
    });
    assert!(e.swap_pending);
    e.swap_buffers(None);
    assert!(!e.swap_pending);
    assert_eq!(e.raster_polygons.len(), 1);
    assert!(e.geometry_polygons.is_empty());
}

#[test]
fn test_swap_buffers_attrs_apply_to_following_geometry() {
    let mut e = Engine3d::new();

    e.dispatch(GxOp {
        cmd: GxCmd::SwapBuffers.opcode(),
        params: vec![2],
    });
    e.swap_buffers(None);

    assert!(!e.rasterizer.w_buffering);
    assert_eq!(e.geometry_swap_attrs, 2);

    e.dispatch(GxOp {
        cmd: GxCmd::SwapBuffers.opcode(),
        params: vec![0],
    });
    e.swap_buffers(None);

    assert!(e.rasterizer.w_buffering);
    assert_eq!(e.geometry_swap_attrs, 0);
}

#[test]
fn test_swap_buffers_stalls_following_geometry_until_vblank_swap() {
    let mut e = Engine3d::new();
    let attr = (1 << 13) | (0x1F << 16) | (1 << 6) | (1 << 7);

    e.dispatch(GxOp {
        cmd: GxCmd::PolygonAttr.opcode(),
        params: vec![attr],
    });
    e.dispatch(GxOp {
        cmd: GxCmd::BeginVtxs.opcode(),
        params: vec![0],
    });
    for _ in 0..3 {
        e.dispatch(GxOp {
            cmd: GxCmd::Vtx16.opcode(),
            params: vec![0, (ONE / 2) as u32 & 0xFFFF],
        });
    }
    assert_eq!(e.geometry_polygons.len(), 1);

    e.dispatch(GxOp {
        cmd: GxCmd::SwapBuffers.opcode(),
        params: vec![0],
    });
    e.fifo.ready.push_back(GxOp {
        cmd: GxCmd::PolygonAttr.opcode(),
        params: vec![attr],
    });
    e.fifo.ready.push_back(GxOp {
        cmd: GxCmd::BeginVtxs.opcode(),
        params: vec![0],
    });
    for _ in 0..3 {
        e.fifo.ready.push_back(GxOp {
            cmd: GxCmd::Vtx16.opcode(),
            params: vec![0, (ONE / 2) as u32 & 0xFFFF],
        });
    }

    e.drain_fifo();
    assert_eq!(e.geometry_polygons.len(), 1);
    assert_eq!(e.fifo.ready.len(), 5);

    e.swap_buffers(None);

    assert_eq!(e.raster_polygons.len(), 1);
    assert_eq!(e.geometry_polygons.len(), 1);
    assert!(e.fifo.ready.is_empty());
}

#[test]
fn test_swap_buffers_with_incomplete_polygon_list_locks_geometry() {
    let mut e = Engine3d::new();
    e.dispatch(GxOp {
        cmd: GxCmd::BeginVtxs.opcode(),
        params: vec![0],
    });
    for _ in 0..2 {
        e.dispatch(GxOp {
            cmd: GxCmd::Vtx16.opcode(),
            params: vec![0, (ONE / 2) as u32 & 0xFFFF],
        });
    }

    e.dispatch(GxOp {
        cmd: GxCmd::SwapBuffers.opcode(),
        params: vec![0],
    });

    assert!(e.geometry_locked);
    assert!(!e.swap_pending);
    assert_eq!(e.gxstat() & (1 << 27), 1 << 27);
}

#[test]
fn test_locked_geometry_engine_stops_draining_fifo() {
    let mut e = Engine3d::new();
    e.geometry_locked = true;
    e.fifo.ready.push_back(GxOp {
        cmd: GxCmd::MtxMode.opcode(),
        params: vec![1],
    });

    e.drain_fifo();

    assert_eq!(e.fifo.ready.len(), 1);
    assert!(matches!(e.stacks.mode, MtxMode::Projection));
}

#[test]
fn test_end_vtxs_command_is_noop_for_vertex_submission() {
    let mut e = Engine3d::new();
    e.dispatch(GxOp {
        cmd: GxCmd::PolygonAttr.opcode(),
        params: vec![(1 << 13) | (0x1F << 16) | (1 << 6) | (1 << 7)],
    });
    e.dispatch(GxOp {
        cmd: GxCmd::BeginVtxs.opcode(),
        params: vec![0],
    });
    e.dispatch(GxOp {
        cmd: GxCmd::Vtx16.opcode(),
        params: vec![0, (ONE / 2) as u32 & 0xFFFF],
    });
    e.dispatch(GxOp {
        cmd: GxCmd::EndVtxs.opcode(),
        params: vec![],
    });
    e.dispatch(GxOp {
        cmd: GxCmd::Vtx16.opcode(),
        params: vec![0, (ONE / 2) as u32 & 0xFFFF],
    });
    e.dispatch(GxOp {
        cmd: GxCmd::Vtx16.opcode(),
        params: vec![0, (ONE / 2) as u32 & 0xFFFF],
    });

    assert_eq!(e.geometry_polygons.len(), 1);
    assert!(e.vertex.list_active);
    assert_eq!(e.vertex.primitive, Some(PrimitiveType::Triangles));
}

#[test]
fn test_end_vtxs_does_not_hide_incomplete_list_from_swap_lock() {
    let mut e = Engine3d::new();
    e.dispatch(GxOp {
        cmd: GxCmd::BeginVtxs.opcode(),
        params: vec![0],
    });
    for _ in 0..2 {
        e.dispatch(GxOp {
            cmd: GxCmd::Vtx16.opcode(),
            params: vec![0, (ONE / 2) as u32 & 0xFFFF],
        });
    }
    e.dispatch(GxOp {
        cmd: GxCmd::EndVtxs.opcode(),
        params: vec![],
    });

    e.dispatch(GxOp {
        cmd: GxCmd::SwapBuffers.opcode(),
        params: vec![0],
    });

    assert!(e.geometry_locked);
    assert!(!e.swap_pending);
}

#[test]
fn test_gxstat_busy_ignores_stored_geometry_but_reports_pending_swap() {
    let mut e = Engine3d::new();
    e.dispatch(GxOp {
        cmd: GxCmd::PolygonAttr.opcode(),
        params: vec![(1 << 13) | (0x1F << 16) | (1 << 6) | (1 << 7)],
    });
    e.dispatch(GxOp {
        cmd: GxCmd::BeginVtxs.opcode(),
        params: vec![0],
    });
    for _ in 0..3 {
        e.dispatch(GxOp {
            cmd: GxCmd::Vtx16.opcode(),
            params: vec![0, (ONE / 2) as u32 & 0xFFFF],
        });
    }

    assert_eq!(e.geometry_polygons.len(), 1);
    assert_eq!(e.gxstat() & (1 << 27), 0);

    e.dispatch(GxOp {
        cmd: GxCmd::SwapBuffers.opcode(),
        params: vec![0],
    });
    assert!(e.swap_pending);
    assert_eq!(e.gxstat() & (1 << 27), 1 << 27);
}

#[test]
fn test_matrix_command_dispatches_to_stacks() {
    let mut e = Engine3d::new();
    e.dispatch(GxOp {
        cmd: GxCmd::MtxMode.opcode(),
        params: vec![1],
    });
    assert!(matches!(e.stacks.mode, MtxMode::Position));
}

#[test]
fn test_viewport_command_updates_viewport() {
    let mut e = Engine3d::new();
    let param = (180u32 << 24) | (100u32 << 16) | (20u32 << 8) | 10u32;
    e.dispatch(GxOp {
        cmd: GxCmd::Viewport.opcode(),
        params: vec![param],
    });
    assert_eq!(e.viewport.x1, 10);
    assert_eq!(e.viewport.x2, 100);
}

#[test]
fn test_dif_amb_bit15_sets_current_vertex_color() {
    let mut e = Engine3d::new();

    e.dispatch(GxOp {
        cmd: GxCmd::DifAmb.opcode(),
        params: vec![(1 << 15) | 0x1234],
    });

    assert_eq!(e.lighting.mat_diffuse, 0x1234);
    assert_eq!(e.vertex.current_color, 0x1234);
}

#[test]
fn test_dif_amb_without_bit15_preserves_current_vertex_color() {
    let mut e = Engine3d::new();
    e.vertex.current_color = 0x7FFF;

    e.dispatch(GxOp {
        cmd: GxCmd::DifAmb.opcode(),
        params: vec![0x1234],
    });

    assert_eq!(e.lighting.mat_diffuse, 0x1234);
    assert_eq!(e.vertex.current_color, 0x7FFF);
}

#[test]
fn test_far_plane_intersecting_polygon_requires_attr_bit() {
    let mut e = Engine3d::new();
    let poly = Polygon {
        vertices: vec![
            Vertex::new([0, 0, ONE / 2, ONE], 0x001F, [0, 0]),
            Vertex::new([ONE / 2, 0, ONE / 2, ONE], 0x001F, [0, 0]),
            Vertex::new([0, ONE / 2, 2 * ONE, ONE], 0x001F, [0, 0]),
        ],
        attr: (0x1F << 16) | (1 << 6) | (1 << 7),
        tex_image_param: 0,
        palette_base: 0,
        front_area_negative: true,
    };

    e.vertex.polygon_buffer.push(poly.clone());
    e.flush_polygons();
    assert!(e.geometry_polygons.is_empty());

    let mut with_far_bit = poly;
    with_far_bit.attr |= 1 << 12;
    e.vertex.polygon_buffer.push(with_far_bit);
    e.flush_polygons();
    assert_eq!(e.geometry_polygons.len(), 1);
}

#[test]
fn test_box_clip_near_plane_uses_negative_w_boundary() {
    let inside_near = [0, 0, -ONE as i64, ONE as i64];
    let behind_near = [0, 0, -(ONE as i64) - 1, ONE as i64];

    assert_eq!(clip_plane_value(inside_near, 4), 0);
    assert!(clip_plane_value(behind_near, 4) < 0);
}

#[test]
fn test_disp_1dot_depth_hides_distant_zero_dot_polygon() {
    let mut e = Engine3d::new();
    e.disp_1dot_depth = 0;
    let poly = Polygon {
        vertices: vec![
            Vertex::new([0, 0, ONE / 2, ONE], 0x001F, [0, 0]),
            Vertex::new([0, 0, ONE / 2, ONE], 0x001F, [0, 0]),
            Vertex::new([0, 0, ONE / 2, ONE], 0x001F, [0, 0]),
        ],
        attr: (0x1F << 16) | (1 << 6) | (1 << 7),
        tex_image_param: 0,
        palette_base: 0,
        front_area_negative: true,
    };

    e.vertex.polygon_buffer.push(poly);
    e.flush_polygons();

    assert!(e.geometry_polygons.is_empty());
}

#[test]
fn test_polygon_attr_bit13_keeps_zero_dot_polygon() {
    let mut e = Engine3d::new();
    e.disp_1dot_depth = 0;
    let poly = Polygon {
        vertices: vec![
            Vertex::new([0, 0, ONE / 2, ONE], 0x001F, [0, 0]),
            Vertex::new([0, 0, ONE / 2, ONE], 0x001F, [0, 0]),
            Vertex::new([0, 0, ONE / 2, ONE], 0x001F, [0, 0]),
        ],
        attr: (0x1F << 16) | (1 << 6) | (1 << 7) | (1 << 13),
        tex_image_param: 0,
        palette_base: 0,
        front_area_negative: true,
    };

    e.vertex.polygon_buffer.push(poly);
    e.flush_polygons();

    assert_eq!(e.geometry_polygons.len(), 1);
}

#[test]
fn test_box_test_reports_box_intersecting_frustum_edge() {
    let clip = Matrix::identity();
    let origin = [-2 * ONE, -ONE / 2, ONE / 2];
    let size = [3 * ONE, ONE, ONE / 4];

    assert!(box_intersects_view_volume(origin, size, &clip));
}

#[test]
fn test_box_test_rejects_box_outside_single_clip_plane() {
    let clip = Matrix::identity();
    let origin = [2 * ONE, -ONE / 2, ONE / 2];
    let size = [ONE / 2, ONE, ONE / 4];

    assert!(!box_intersects_view_volume(origin, size, &clip));
}

#[test]
fn test_box_test_reports_box_enclosing_view_volume() {
    let clip = Matrix::identity();
    let origin = [-2 * ONE, -2 * ONE, -2 * ONE];
    let size = [4 * ONE, 4 * ONE, 4 * ONE];

    assert!(box_intersects_view_volume(origin, size, &clip));
}

#[test]
fn test_vec_test_result_uses_4_sign_bits_and_12_fraction_bits() {
    assert_eq!(format_vec_test_result(0x07FF) as u16, 0x07FF);
    assert_eq!(format_vec_test_result(0x0800) as u16, 0x0800);
    assert_eq!(format_vec_test_result(-0x0800) as u16, 0xF800);
    assert_eq!(format_vec_test_result(0x1000) as u16, 0xF000);
}

#[test]
fn test_vec_test_readback_wraps_overflowed_unit_vector() {
    let mut e = Engine3d::new();
    e.stacks.set_mode(MtxMode::PosVector);
    e.stacks.vector = Matrix::identity().mul_scale(2 * ONE, ONE, ONE);

    e.handle_vec_test(0x100);

    assert_eq!(e.read_vec_test_halfword(0), 0xF000);
    assert_eq!(e.read_vec_test_halfword(1), 0);
    assert_eq!(e.read_vec_test_halfword(2), 0);
}

#[test]
fn test_vec_test_requires_pos_vector_matrix_mode() {
    let mut e = Engine3d::new();
    e.vec_test_result = [1, 2, 3];

    e.handle_vec_test(1);

    assert_eq!(e.vec_test_result, [1, 2, 3]);

    e.stacks.set_mode(MtxMode::PosVector);
    e.handle_vec_test(1);

    assert_eq!(e.read_vec_test_halfword(0), 8);
    assert_eq!(e.read_vec_test_halfword(1), 0);
    assert_eq!(e.read_vec_test_halfword(2), 0);
}

#[test]
fn test_readable_matrices_return_zero_while_geometry_busy() {
    let mut e = Engine3d::new();
    e.stacks.position = Matrix::identity().mul_translate(5 * ONE, 0, 0);
    e.stacks.vector = Matrix::identity().mul_scale(2 * ONE, ONE, ONE);

    assert_eq!(e.read_clip_matrix_word(12), (5 * ONE) as u32);
    assert_eq!(e.read_direction_matrix_word(0), (2 * ONE) as u32);

    e.fifo.words.push_back(0);

    assert_eq!(e.gxstat_high() & (1 << 11), 1 << 11);
    assert_eq!(e.read_clip_matrix_word(12), 0);
    assert_eq!(e.read_direction_matrix_word(0), 0);
}

#[test]
fn test_direction_matrix_readback_exposes_directional_3x3_only() {
    let mut e = Engine3d::new();
    e.stacks.vector = Matrix::identity()
        .mul_scale(2 * ONE, 3 * ONE, 4 * ONE)
        .mul_translate(7 * ONE, 8 * ONE, 9 * ONE);

    assert_eq!(e.read_direction_matrix_word(0), (2 * ONE) as u32);
    assert_eq!(e.read_direction_matrix_word(4), (3 * ONE) as u32);
    assert_eq!(e.read_direction_matrix_word(8), (4 * ONE) as u32);
    assert_eq!(e.read_direction_matrix_word(9), 0);
}

#[test]
fn test_decoded_ready_fifo_ops_keep_geometry_busy() {
    let mut e = Engine3d::new();
    e.fifo.write_packed(0x1515_1515);

    let _ = e.fifo.pop_op().expect("first op");

    assert_eq!(e.fifo.len(), 3);
    assert_eq!(e.gxstat_high() & (1 << 11), 1 << 11);
}

#[test]
fn test_gxstat_write_clears_stack_error_and_sets_irq_mode() {
    let mut e = Engine3d::new();
    e.stacks.overflow = true;
    e.stacks.projection_sp = 1;
    e.fifo.overflow = true;

    assert_eq!(e.gxstat_low() & (1 << 15), 1 << 15);
    e.write_gxstat((2 << 30) | (1 << 15));

    assert!(!e.stacks.overflow);
    assert_eq!(e.stacks.projection_sp, 0);
    assert!(
        e.fifo.overflow,
        "GXSTAT bit 15 clears matrix stack overflow, not FIFO overflow"
    );
    assert_eq!(e.fifo.irq_mode, 2);
    assert_eq!(e.gxstat_low() & (1 << 15), 0);
}

#[test]
fn test_fifo_overflow_does_not_set_gxstat_matrix_stack_error() {
    let mut e = Engine3d::new();
    e.fifo.overflow = true;

    assert_eq!(e.gxstat_low() & (1 << 15), 0);
    assert_eq!(e.gxstat() & (1 << 15), 0);
}

#[test]
fn test_overflow_when_polygon_buffer_full() {
    let mut e = Engine3d::new();
    // Pre-fill the geometry buffer to the limit with dummy polygons.
    for _ in 0..POLYGON_BUF_LIMIT {
        e.geometry_polygons.push(ScreenPolygon {
            vertices: vec![],
            attr: 0,
            tex_image_param: 0,
            palette_base: 0,
            front_area_negative: true,
        });
    }
    // Now try to push one more through the pipeline.
    e.dispatch(GxOp {
        cmd: GxCmd::BeginVtxs.opcode(),
        params: vec![0],
    });
    for _ in 0..3 {
        e.dispatch(GxOp {
            cmd: GxCmd::Vtx16.opcode(),
            params: vec![0, (ONE / 2) as u32 & 0xFFFF],
        });
    }
    assert!(
        e.fifo.overflow,
        "should flag overflow when geom buffer full"
    );
}

#[test]
fn test_overflow_when_vertex_buffer_full() {
    let mut e = Engine3d::new();
    for _ in 0..(VERTEX_BUF_LIMIT / 3) {
        e.geometry_polygons.push(ScreenPolygon {
            vertices: vec![
                ScreenVertex {
                    screen_x: 0,
                    screen_y: 0,
                    depth_z: 0,
                    w: ONE,
                    color: 0,
                    tex: [0, 0],
                },
                ScreenVertex {
                    screen_x: 1,
                    screen_y: 0,
                    depth_z: 0,
                    w: ONE,
                    color: 0,
                    tex: [0, 0],
                },
                ScreenVertex {
                    screen_x: 0,
                    screen_y: 1,
                    depth_z: 0,
                    w: ONE,
                    color: 0,
                    tex: [0, 0],
                },
            ],
            attr: (0x1F << 16) | (1 << 6) | (1 << 7),
            tex_image_param: 0,
            palette_base: 0,
            front_area_negative: true,
        });
    }
    assert_eq!(e.geometry_vertex_count(), VERTEX_BUF_LIMIT);

    e.dispatch(GxOp {
        cmd: GxCmd::BeginVtxs.opcode(),
        params: vec![0],
    });
    e.dispatch(GxOp {
        cmd: GxCmd::Vtx16.opcode(),
        params: vec![0, (ONE / 2) as u32 & 0xFFFF],
    });
    e.dispatch(GxOp {
        cmd: GxCmd::Vtx16.opcode(),
        params: vec![ONE as u32, (ONE / 2) as u32 & 0xFFFF],
    });
    e.dispatch(GxOp {
        cmd: GxCmd::Vtx16.opcode(),
        params: vec![(ONE as u32) << 16, (ONE / 2) as u32 & 0xFFFF],
    });

    assert!(
        e.fifo.overflow,
        "should flag overflow when vertex RAM is full"
    );
    assert_eq!(e.geometry_vertex_count(), VERTEX_BUF_LIMIT);
}
