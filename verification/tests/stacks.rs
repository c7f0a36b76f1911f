#![allow(unused_imports)]

use nds_core::gpu3d::{Matrix, MatrixStacks, MtxMode, ONE};

#[test]
fn test_load_and_mult_in_projection_mode() {
    let mut s = MatrixStacks::new();
    s.set_mode(MtxMode::Projection);
    let m = Matrix::identity().mul_translate(3 * ONE, 0, 0);
    s.load(m);
    assert_eq!(s.projection.at(3, 0), 3 * ONE);
    s.mult(Matrix::identity().mul_translate(2 * ONE, 0, 0));
    let r = s.projection.mul_vec4([0, 0, 0, ONE]);
    assert_eq!(r[0], 5 * ONE);
}

#[test]
fn test_pos_vector_mode_keeps_lockstep() {
    let mut s = MatrixStacks::new();
    s.set_mode(MtxMode::PosVector);
    s.mult(Matrix::identity().mul_translate(7 * ONE, 0, 0));
    // Both position and vector got the multiply applied.
    assert_eq!(s.position.at(3, 0), 7 * ONE);
    assert_eq!(s.vector.at(3, 0), 7 * ONE);
}

#[test]
fn test_pos_vector_scale_updates_only_position() {
    let mut s = MatrixStacks::new();
    s.set_mode(MtxMode::PosVector);
    s.scale(2 * ONE, 3 * ONE, 4 * ONE);

    assert_eq!(s.position.at(0, 0), 2 * ONE);
    assert_eq!(s.position.at(1, 1), 3 * ONE);
    assert_eq!(s.position.at(2, 2), 4 * ONE);
    assert_eq!(s.vector, Matrix::identity());
}

#[test]
fn test_mult_premultiplies_current_matrix() {
    let mut s = MatrixStacks::new();
    s.set_mode(MtxMode::Position);
    s.load(Matrix::identity().mul_translate(ONE, 0, 0));

    s.mult(Matrix::identity().mul_scale(2 * ONE, 2 * ONE, 2 * ONE));

    let r = s.position.mul_vec4([0, 0, 0, ONE]);
    assert_eq!(
        r[0], ONE,
        "C = scale * translate keeps translation unscaled"
    );
}

#[test]
fn test_scale_command_premultiplies_current_matrix() {
    let mut s = MatrixStacks::new();
    s.set_mode(MtxMode::Position);
    s.load(Matrix::identity().mul_translate(ONE, 0, 0));

    s.scale(2 * ONE, 2 * ONE, 2 * ONE);

    let r = s.position.mul_vec4([0, 0, 0, ONE]);
    assert_eq!(r[0], ONE, "MTX_SCALE uses C = M * C");
}

#[test]
fn test_pos_vector_translate_preserves_separate_matrices() {
    let mut s = MatrixStacks::new();
    s.position = Matrix::identity().mul_scale(2 * ONE, 2 * ONE, 2 * ONE);
    s.vector = Matrix::identity().mul_scale(3 * ONE, 3 * ONE, 3 * ONE);
    s.set_mode(MtxMode::PosVector);
    s.translate(ONE, 0, 0);

    assert_eq!(s.position.at(0, 0), 2 * ONE);
    assert_eq!(s.vector.at(0, 0), 3 * ONE);
    assert_eq!(s.position.at(3, 0), 2 * ONE);
    assert_eq!(s.vector.at(3, 0), 3 * ONE);
}

#[test]
fn test_position_push_pop_balance() {
    let mut s = MatrixStacks::new();
    s.set_mode(MtxMode::Position);
    s.mult(Matrix::identity().mul_translate(ONE, 0, 0));
    s.push();
    assert_eq!(s.position_sp, 1);
    // Apply another transform on top.
    s.mult(Matrix::identity().mul_translate(2 * ONE, 0, 0));
    // Pop returns to the post-push state.
    s.pop(1);
    assert_eq!(s.position_sp, 0);
    let r = s.position.mul_vec4([0, 0, 0, ONE]);
    assert_eq!(r[0], ONE, "pop should restore T(1, 0, 0)");
}

#[test]
fn test_position_mode_stack_ops_preserve_vector_matrix() {
    let mut s = MatrixStacks::new();
    s.vector = Matrix::identity().mul_scale(2 * ONE, 3 * ONE, 4 * ONE);
    s.set_mode(MtxMode::Position);

    s.push();
    let saved_vector = s.vector;
    s.vector = Matrix::identity().mul_translate(5 * ONE, 0, 0);

    s.pop(1);

    assert_eq!(s.vector, saved_vector);
}

#[test]
fn test_position_mode_store_restore_preserves_vector_matrix() {
    let mut s = MatrixStacks::new();
    s.vector = Matrix::identity().mul_scale(2 * ONE, 3 * ONE, 4 * ONE);
    s.set_mode(MtxMode::Position);

    s.store(4);
    let saved_vector = s.vector;
    s.vector = Matrix::identity().mul_translate(5 * ONE, 0, 0);

    s.restore(4);

    assert_eq!(s.vector, saved_vector);
}

#[test]
fn test_projection_push_overflow_sets_flag() {
    let mut s = MatrixStacks::new();
    s.set_mode(MtxMode::Projection);
    s.push();
    assert!(!s.overflow);
    // Second push overwrites the single saved slot — sets overflow.
    s.push();
    assert!(s.overflow);
}

#[test]
fn test_position_push_overflow_at_depth_31() {
    let mut s = MatrixStacks::new();
    s.set_mode(MtxMode::Position);
    for _ in 0..31 {
        s.push();
    }
    assert_eq!(s.position_sp, 31);
    // 32nd push stores to the mirrored/error entry 31, flags overflow,
    // and advances the 6-bit pointer.
    s.push();
    assert!(s.overflow);
    assert_eq!(s.position_sp, 32);
}

#[test]
fn test_pop_signed_offset() {
    let mut s = MatrixStacks::new();
    s.set_mode(MtxMode::Position);
    for _ in 0..5 {
        s.push();
    }
    assert_eq!(s.position_sp, 5);
    // Pop 2 levels: stack pointer goes from 5 → 3.
    s.pop(2);
    assert_eq!(s.position_sp, 3);
    // Negative pop count = push back up: 3 - (-2) = 5
    s.pop(0x3E); // 0x3E sign-extended in 6 bits = -2
    assert_eq!(s.position_sp, 5);
}

#[test]
fn test_store_restore_position_slot() {
    let mut s = MatrixStacks::new();
    s.set_mode(MtxMode::Position);
    let target = Matrix::identity().mul_translate(9 * ONE, 0, 0);
    s.load(target);
    s.store(5);
    // Wipe current.
    s.identity();
    let r = s.position.mul_vec4([0, 0, 0, ONE]);
    assert_eq!(r[0], 0);
    // Restore from slot 5 — should bring back the translate.
    s.restore(5);
    let r = s.position.mul_vec4([0, 0, 0, ONE]);
    assert_eq!(r[0], 9 * ONE);
}

#[test]
fn test_store_restore_slot_31_sets_overflow_without_accessing_entry() {
    let mut s = MatrixStacks::new();
    s.set_mode(MtxMode::Position);
    let target = Matrix::identity().mul_translate(31 * ONE, 0, 0);
    let original_slot_31 = s.position_stack[31];
    s.load(target);

    s.store(31);
    assert!(s.overflow);
    assert_eq!(s.position_stack[31], original_slot_31);
    s.identity();
    s.overflow = false;
    s.restore(31);

    assert!(s.overflow);
    let r = s.position.mul_vec4([0, 0, 0, ONE]);
    assert_eq!(r[0], 0);
}

#[test]
fn test_pop_into_upper_mirror_sets_overflow_and_uses_lower_entry() {
    let mut s = MatrixStacks::new();
    s.set_mode(MtxMode::Position);
    let target = Matrix::identity().mul_translate(2 * ONE, 0, 0);
    s.load(target);
    s.store(2);
    s.position_sp = 30;

    s.pop(0x3E); // -2, moves pointer to 32, mirrored entry 0.

    assert!(s.overflow);
    assert_eq!(s.position_sp, 32);
    assert_eq!(s.position, s.position_stack[0]);
}

#[test]
fn test_clear_overflow_resets_projection_stack_level() {
    let mut s = MatrixStacks::new();
    s.set_mode(MtxMode::Projection);
    s.push();
    s.set_mode(MtxMode::Texture);
    s.push();
    s.overflow = true;

    s.clear_overflow_error();

    assert!(!s.overflow);
    assert_eq!(s.projection_sp, 0);
    assert!(!s.texture_saved_valid);
}

#[test]
fn test_projection_store_restore_do_not_change_stack_pointer() {
    let mut s = MatrixStacks::new();
    s.set_mode(MtxMode::Projection);

    let stored = Matrix::identity().mul_translate(3 * ONE, 0, 0);
    s.load(stored);
    s.store(0);
    assert_eq!(s.projection_sp, 0);

    s.identity();
    s.restore(0);
    assert_eq!(s.projection_sp, 0);
    assert_eq!(s.projection, stored);
}

#[test]
fn test_projection_push_pop_updates_stack_pointer() {
    let mut s = MatrixStacks::new();
    s.set_mode(MtxMode::Projection);

    let stored = Matrix::identity().mul_translate(4 * ONE, 0, 0);
    s.load(stored);
    s.push();
    assert_eq!(s.projection_sp, 1);

    s.identity();
    s.pop(0);
    assert_eq!(s.projection_sp, 0);
    assert_eq!(s.projection, stored);
}

#[test]
fn test_clip_matrix_is_pos_times_proj() {
    let mut s = MatrixStacks::new();
    s.set_mode(MtxMode::Projection);
    s.load(Matrix::identity().mul_scale(2 * ONE, 2 * ONE, 2 * ONE));
    s.set_mode(MtxMode::Position);
    s.load(Matrix::identity().mul_translate(ONE, 0, 0));
    // Row-vector clip = pos × proj applied to origin: translate first,
    // then scale by 2.
    let clip = s.clip_matrix();
    let r = clip.mul_vec4([0, 0, 0, ONE]);
    assert_eq!(r[0], 2 * ONE);
}

#[test]
fn test_pop_empty_projection_sets_overflow() {
    let mut s = MatrixStacks::new();
    s.set_mode(MtxMode::Projection);
    s.pop(1);
    assert!(s.overflow);
}
