#![allow(unused_imports)]

use nds_core::gpu3d::{fmul, Matrix, ONE};

fn approx_eq(a: i32, b: i32, tol: i32) -> bool {
    (a - b).abs() <= tol
}

#[test]
fn test_identity_is_neutral_for_multiply() {
    let m = Matrix::identity();
    let n = m.mul_matrix(&Matrix::identity());
    assert_eq!(m, n);
}

#[test]
fn test_identity_passes_through_vector() {
    let m = Matrix::identity();
    let v = [ONE * 3, ONE * 5, ONE * -7, ONE];
    let r = m.mul_vec4(v);
    assert_eq!(r, v);
}

#[test]
fn test_fmul_basic() {
    // 2.0 × 3.0 = 6.0
    assert_eq!(fmul(2 * ONE, 3 * ONE), 6 * ONE);
    // 0.5 × 0.5 = 0.25
    assert_eq!(fmul(ONE / 2, ONE / 2), ONE / 4);
    // -1.0 × 2.0 = -2.0
    assert_eq!(fmul(-ONE, 2 * ONE), -2 * ONE);
}

#[test]
fn test_translate_moves_origin() {
    // T(10, 20, 30) applied to the origin gives (10, 20, 30).
    let m = Matrix::identity().mul_translate(10 * ONE, 20 * ONE, 30 * ONE);
    let r = m.mul_vec4([0, 0, 0, ONE]);
    assert_eq!(r, [10 * ONE, 20 * ONE, 30 * ONE, ONE]);
}

#[test]
fn test_scale_doubles_vector() {
    let m = Matrix::identity().mul_scale(2 * ONE, 2 * ONE, 2 * ONE);
    let r = m.mul_vec4([ONE, 2 * ONE, 3 * ONE, ONE]);
    assert_eq!(r, [2 * ONE, 4 * ONE, 6 * ONE, ONE]);
}

#[test]
fn test_load_4x4_round_trip() {
    let words: [i32; 16] = [1, 2, 3, 4, 5, 6, 7, 8, 9, 10, 11, 12, 13, 14, 15, 16];
    let m = Matrix::load_4x4(&words);
    // Row 0 is M[0..3].
    assert_eq!(m.at(0, 0), 1);
    assert_eq!(m.at(0, 1), 2);
    assert_eq!(m.at(0, 2), 3);
    assert_eq!(m.at(0, 3), 4);
    // Row 3 is M[12..15].
    assert_eq!(m.at(3, 0), 13);
    assert_eq!(m.at(3, 3), 16);
}

#[test]
fn test_load_4x3_pads_bottom_row() {
    let words: [i32; 12] = [1, 2, 3, 4, 5, 6, 7, 8, 9, 10, 11, 12];
    let m = Matrix::load_4x3(&words);
    assert_eq!(m.at(3, 0), 10);
    assert_eq!(m.at(3, 1), 11);
    assert_eq!(m.at(3, 2), 12);
    assert_eq!(m.at(3, 3), ONE);
    assert_eq!(m.at(0, 3), 0);
    assert_eq!(m.at(1, 3), 0);
    assert_eq!(m.at(2, 3), 0);
    // Top-left should be 1
    assert_eq!(m.at(0, 0), 1);
}

#[test]
fn test_load_3x3_pads_identity() {
    let words: [i32; 9] = [2 * ONE, 0, 0, 0, 2 * ONE, 0, 0, 0, 2 * ONE];
    let m = Matrix::load_3x3(&words);
    // Last column/row should remain identity.
    assert_eq!(m.at(0, 3), 0);
    assert_eq!(m.at(3, 3), ONE);
    // 2× scale on the 3×3 portion.
    assert_eq!(m.at(0, 0), 2 * ONE);
    let r = m.mul_vec4([ONE, ONE, ONE, ONE]);
    assert_eq!(r, [2 * ONE, 2 * ONE, 2 * ONE, ONE]);
}

#[test]
fn test_mul_matrix_associative_under_translate_compose() {
    // T(1, 0, 0) × T(0, 2, 0) = T(1, 2, 0). Apply to origin → (1, 2, 0).
    let a = Matrix::identity().mul_translate(ONE, 0, 0);
    let b = Matrix::identity().mul_translate(0, 2 * ONE, 0);
    let c = a.mul_matrix(&b);
    let r = c.mul_vec4([0, 0, 0, ONE]);
    assert_eq!(r, [ONE, 2 * ONE, 0, ONE]);
}

#[test]
fn test_fixed_point_precision_quarter() {
    // 0.25 × 4.0 = 1.0 with no precision loss in 1.19.12.
    assert_eq!(fmul(ONE / 4, 4 * ONE), ONE);
}

#[test]
fn test_mul_matrix_rotates_then_scales() {
    // Verify ordering: row-vector v × M means "apply M to v in object space".
    let s = Matrix::identity().mul_scale(2 * ONE, 2 * ONE, 2 * ONE);
    let c = s.mul_matrix(&Matrix::identity().mul_translate(5 * ONE, 0, 0));
    let r = c.mul_vec4([ONE, 0, 0, ONE]);
    assert_eq!(r[0], 7 * ONE);
    let _ = approx_eq;
}
