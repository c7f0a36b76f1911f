#![allow(unused_imports)]

use nds_core::gpu3d::{clip_polygon, Vertex, ONE};

const MAX_CLIPPED_VERTICES_PER_POLYGON: usize = 10;

fn vtx(x: i32, y: i32, z: i32, w: i32, color: u16) -> Vertex {
    Vertex::new([x, y, z, w], color, [0, 0])
}

#[test]
fn test_triangle_fully_inside_passes_through() {
    let tri = vec![
        vtx(0, 0, ONE / 2, ONE, 0x001F),
        vtx(ONE / 2, 0, ONE / 2, ONE, 0x001F),
        vtx(0, ONE / 2, ONE / 2, ONE, 0x001F),
    ];
    let out = clip_polygon(&tri).expect("inside");
    assert_eq!(out.len(), 3);
    for (i, v) in out.iter().enumerate() {
        assert_eq!(v.clip, tri[i].clip);
    }
}

#[test]
fn test_triangle_fully_outside_left_plane_is_rejected() {
    // All vertices have x < -w → outside left plane.
    let tri = vec![
        vtx(-2 * ONE, 0, ONE / 2, ONE, 0),
        vtx(-3 * ONE, ONE, ONE / 2, ONE, 0),
        vtx(-4 * ONE, -ONE, ONE / 2, ONE, 0),
    ];
    assert!(clip_polygon(&tri).is_none());
}

#[test]
fn test_triangle_straddling_near_plane_clips_to_polygon() {
    // Two verts inside (z >= -w), one behind the near plane (z < -w).
    let tri = vec![
        vtx(0, 0, ONE / 2, ONE, 0x001F),   // inside
        vtx(0, ONE, ONE / 2, ONE, 0x001F), // inside
        vtx(0, 0, -2 * ONE, ONE, 0x001F),  // outside (z < -w)
    ];
    let out = clip_polygon(&tri).expect("clipped");
    // Clipping a triangle that straddles one plane produces 4 vertices.
    assert_eq!(out.len(), 4);
    // None of the output vertices should have z < -w.
    for v in &out {
        assert!(
            v.clip[2] >= -v.clip[3],
            "z should be inside near plane after clip, got z={} w={}",
            v.clip[2],
            v.clip[3]
        );
    }
}

#[test]
fn test_color_interpolation_along_clipped_edge() {
    // Triangle straddling the near plane; one vertex is red, the
    // behind-near-plane vertex is blue. The new interpolated vertex on the
    // straddling edge should have a color between them.
    let tri = vec![
        vtx(0, 0, ONE, ONE, 0x001F),      // red, inside
        vtx(0, ONE, ONE, ONE, 0x001F),    // red, inside
        vtx(0, 0, -2 * ONE, ONE, 0x7C00), // blue, outside
    ];
    let out = clip_polygon(&tri).expect("clipped");
    // The two new vertices should have a mix of red and blue.
    let has_mix = out.iter().any(|v| {
        let r = v.color & 0x1F;
        let b = (v.color >> 10) & 0x1F;
        r > 0 && b > 0
    });
    assert!(
        has_mix,
        "expected at least one interpolated red+blue vertex"
    );
}

#[test]
fn test_texcoord_interpolation_along_clipped_edge() {
    let mut inside_a = vtx(0, 0, ONE, ONE, 0x7FFF);
    inside_a.tex = [0, 0];
    let mut inside_b = vtx(0, ONE, ONE, ONE, 0x7FFF);
    inside_b.tex = [0, 0];
    let mut outside = vtx(0, 0, -3 * ONE, ONE, 0x7FFF);
    outside.tex = [64, 128];

    let out = clip_polygon(&[inside_a, inside_b, outside]).expect("clipped");

    assert!(
        out.iter().any(|v| v.tex == [32, 64]),
        "near-plane intersections should interpolate S/T halfway between inside and outside vertices"
    );
}

#[test]
fn test_quad_fully_inside_passes_through_four_planes() {
    // A quad fully inside the frustum should survive with 4 vertices.
    let q = vec![
        vtx(0, 0, ONE / 2, ONE, 0),
        vtx(ONE / 2, 0, ONE / 2, ONE, 0),
        vtx(ONE / 2, ONE / 2, ONE / 2, ONE, 0),
        vtx(0, ONE / 2, ONE / 2, ONE, 0),
    ];
    let out = clip_polygon(&q).expect("quad");
    assert_eq!(out.len(), 4);
}

#[test]
fn test_triangle_crossing_two_planes() {
    // Triangle that straddles both the right plane and the far plane.
    // Output polygon should have ≥ 4 vertices (one new per crossing).
    let tri = vec![
        vtx(0, 0, ONE / 4, ONE, 0),
        vtx(2 * ONE, 0, 4 * ONE, ONE, 0), // x > w AND z > w
        vtx(0, ONE / 2, ONE / 4, ONE, 0),
    ];
    let out = clip_polygon(&tri).expect("clipped");
    assert!(
        out.len() >= 4,
        "expected ≥ 4 verts after 2-plane clip, got {}",
        out.len()
    );
    // All survivors must be inside all planes now.
    for v in &out {
        assert!(v.clip[0] >= -v.clip[3]);
        assert!(v.clip[0] <= v.clip[3]);
        assert!(v.clip[2] >= -v.clip[3]);
        assert!(v.clip[2] <= v.clip[3]);
    }
}

#[test]
fn test_clipped_quad_stays_within_hardware_vertex_limit() {
    // A hardware input polygon is either a triangle or a quad. Even when
    // a quad crosses multiple clip planes, the clipped polygon must fit
    // the DS per-polygon storage contract.
    let q = vec![
        vtx(-2 * ONE, -ONE / 2, ONE / 4, ONE, 0x001F),
        vtx(ONE / 2, -2 * ONE, ONE / 4, ONE, 0x03E0),
        vtx(2 * ONE, ONE / 2, ONE / 4, ONE, 0x7C00),
        vtx(-ONE / 2, 2 * ONE, ONE / 4, ONE, 0x7FFF),
    ];

    let out = clip_polygon(&q).expect("clipped quad");

    assert!(
        out.len() <= MAX_CLIPPED_VERTICES_PER_POLYGON,
        "clipped quad produced {} vertices",
        out.len()
    );
    for v in &out {
        assert!(v.clip[0] >= -v.clip[3]);
        assert!(v.clip[0] <= v.clip[3]);
        assert!(v.clip[1] >= -v.clip[3]);
        assert!(v.clip[1] <= v.clip[3]);
        assert!(v.clip[2] >= -v.clip[3]);
        assert!(v.clip[2] <= v.clip[3]);
    }
}
