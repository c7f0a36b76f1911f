#![allow(unused_imports)]

use nds_core::gpu3d::{GxCmd, GxFifo, FIFO_CAPACITY, FIFO_HALF};

#[test]
fn test_packed_word_with_one_zero_param_command() {
    let mut f = GxFifo::new();
    // MTX_PUSH (0x11) packed alone — zero params.
    f.write_packed(0x0000_0011);
    let op = f.pop_op().expect("op");
    assert_eq!(op.cmd, 0x11);
    assert!(op.params.is_empty());
}

#[test]
fn test_packed_word_with_one_param_command() {
    let mut f = GxFifo::new();
    // MTX_MODE (0x10), one param = 1 (= MtxMode::Position).
    f.write_packed(0x0000_0010);
    f.write_packed(1);
    let op = f.pop_op().expect("op");
    assert_eq!(op.cmd, 0x10);
    assert_eq!(op.params, vec![1]);
}

#[test]
fn test_packed_word_with_four_commands_and_params() {
    let mut f = GxFifo::new();
    // Pack: MTX_PUSH (0), MTX_MODE (1), MTX_IDENTITY (0), MTX_POP (1).
    // Encoding LSB-first: 0x12_15_10_11 = 0x12151011.
    f.write_packed(0x1215_1011);
    // Parameters in declaration order: MTX_MODE gets 1, MTX_POP gets 5.
    f.write_packed(2);
    f.write_packed(5);

    let ops: Vec<_> = std::iter::from_fn(|| f.pop_op()).collect();
    assert_eq!(ops.len(), 4);
    assert_eq!(ops[0].cmd, 0x11);
    assert!(ops[0].params.is_empty());
    assert_eq!(ops[1].cmd, 0x10);
    assert_eq!(ops[1].params, vec![2]);
    assert_eq!(ops[2].cmd, 0x15);
    assert!(ops[2].params.is_empty());
    assert_eq!(ops[3].cmd, 0x12);
    assert_eq!(ops[3].params, vec![5]);
}

#[test]
fn test_packed_zero_param_commands_count_as_fifo_entries() {
    let mut f = GxFifo::new();
    f.write_packed(0x1515_1515);

    assert_eq!(f.len(), 4);
    assert_eq!(f.gxstat_high_bits(false) & 0x01FF, 4);

    let ops: Vec<_> = std::iter::from_fn(|| f.pop_op()).collect();
    assert_eq!(ops.len(), 4);
    assert_eq!(f.len(), 0);
}

#[test]
fn test_packed_command_word_past_capacity_preserves_commands() {
    let mut f = GxFifo::new();
    f.entries = FIFO_CAPACITY - 1;

    f.write_packed(0x1515_1515);

    assert!(!f.overflow);
    assert_eq!(f.len(), FIFO_CAPACITY + 3);
    assert_eq!(f.gxstat_high_bits(false) & 0x01FF, 256);
    let ops: Vec<_> = std::iter::from_fn(|| f.pop_op()).collect();
    assert_eq!(ops.len(), 4);
    assert!(ops.iter().all(|op| op.cmd == GxCmd::MtxIdentity.opcode()));
}

#[test]
fn test_packed_word_stops_at_first_zero_command_byte() {
    let mut f = GxFifo::new();
    // MTX_PUSH, then zero padding, then malformed non-zero bytes that
    // must not be accepted as commands.
    f.write_packed(0x1215_0011);

    let ops: Vec<_> = std::iter::from_fn(|| f.pop_op()).collect();
    assert_eq!(ops.len(), 1);
    assert_eq!(ops[0].cmd, 0x11);
    assert!(ops[0].params.is_empty());
}

#[test]
fn test_packed_word_invalid_command_byte_acts_like_zero() {
    let mut f = GxFifo::new();
    // MTX_PUSH, invalid byte 0xFF, then valid bytes that must be ignored.
    f.write_packed(0x1215_FF11);

    let ops: Vec<_> = std::iter::from_fn(|| f.pop_op()).collect();
    assert_eq!(ops.len(), 1);
    assert_eq!(ops[0].cmd, 0x11);
    assert!(ops[0].params.is_empty());
}

#[test]
fn test_zero_padded_packed_word_ending_with_zero_param_command_requires_dummy() {
    let mut f = GxFifo::new();
    f.write_packed(0x0000_0011); // MTX_PUSH, zero params, then zero padding.
    f.write_packed(0x0000_0010); // Required dummy, not MTX_MODE command word.
    f.write_packed(0x0000_0010); // Actual MTX_MODE command word.
    f.write_packed(1);

    let ops: Vec<_> = std::iter::from_fn(|| f.pop_op()).collect();
    assert_eq!(ops.len(), 2);
    assert_eq!(ops[0].cmd, 0x11);
    assert_eq!(ops[1].cmd, 0x10);
    assert_eq!(ops[1].params, vec![1]);
}

#[test]
fn test_packed_word_tail_dummy_waits_until_prior_params_consumed() {
    let mut f = GxFifo::new();
    // MTX_MODE needs one parameter, then MTX_PUSH is the final command and
    // must consume a dummy before the next command word.
    f.write_packed(0x0000_1110);
    f.write_packed(2); // MTX_MODE parameter.
    f.write_packed(0x0000_0012); // Required dummy, not MTX_POP.
    f.write_packed(0x0000_0012); // Actual MTX_POP command word.
    f.write_packed(1);

    let ops: Vec<_> = std::iter::from_fn(|| f.pop_op()).collect();
    assert_eq!(ops.len(), 3);
    assert_eq!(ops[0].cmd, 0x10);
    assert_eq!(ops[0].params, vec![2]);
    assert_eq!(ops[1].cmd, 0x11);
    assert_eq!(ops[2].cmd, 0x12);
    assert_eq!(ops[2].params, vec![1]);
}

#[test]
fn test_full_packed_word_ending_with_zero_param_command_requires_dummy_word() {
    let mut f = GxFifo::new();
    f.write_packed(0x1111_1111); // Four MTX_PUSH commands, no zero padding.
    f.write_packed(0x0000_0010); // Required dummy, not MTX_MODE command word.
    f.write_packed(0x0000_0010); // Actual MTX_MODE command word.
    f.write_packed(1);

    let ops: Vec<_> = std::iter::from_fn(|| f.pop_op()).collect();
    assert_eq!(ops.len(), 5);
    assert!(ops[..4]
        .iter()
        .all(|op| op.cmd == 0x11 && op.params.is_empty()));
    assert_eq!(ops[4].cmd, 0x10);
    assert_eq!(ops[4].params, vec![1]);
}

#[test]
fn test_direct_port_writes() {
    let mut f = GxFifo::new();
    // VTX_16 needs 2 params.
    f.write_direct(GxCmd::Vtx16, 0xAAAA_AAAA);
    // Not yet ready — needs 1 more.
    assert!(f.ready.is_empty());
    assert_eq!(f.len(), 1);
    f.write_direct(GxCmd::Vtx16, 0xBBBB_BBBB);
    assert_eq!(f.len(), 2);
    let op = f.pop_op().expect("op");
    assert_eq!(op.cmd, 0x23);
    assert_eq!(op.params, vec![0xAAAA_AAAA, 0xBBBB_BBBB]);
    assert_eq!(f.len(), 0);
}

#[test]
fn test_direct_port_does_not_satisfy_pending_packed_params() {
    let mut f = GxFifo::new();

    f.write_packed(0x0000_0023); // Packed VTX_16, still needs two params.
    f.write_direct(GxCmd::Vtx16, 0x1111_1111); // Separate direct VTX_16 start.

    assert!(
        f.ready.is_empty(),
        "direct VTX_16 param must not complete the packed VTX_16"
    );

    f.write_packed(0xAAAA_AAAA);
    assert!(f.ready.is_empty());
    f.write_packed(0xBBBB_BBBB);

    let packed = f.pop_op().expect("packed op");
    assert_eq!(packed.cmd, GxCmd::Vtx16.opcode());
    assert_eq!(packed.params, vec![0xAAAA_AAAA, 0xBBBB_BBBB]);

    f.write_direct(GxCmd::Vtx16, 0x2222_2222);
    let direct = f.pop_op().expect("direct op");
    assert_eq!(direct.cmd, GxCmd::Vtx16.opcode());
    assert_eq!(direct.params, vec![0x1111_1111, 0x2222_2222]);
    assert_eq!(f.len(), 0);
}

#[test]
fn test_packed_command_params_count_as_entries_as_they_arrive() {
    let mut f = GxFifo::new();
    f.write_packed(0x0000_0023); // VTX_16, two parameters.
    assert_eq!(f.len(), 0);

    f.write_packed(0xAAAA_AAAA);
    assert_eq!(f.len(), 1);
    assert!(f.ready.is_empty());

    f.write_packed(0xBBBB_BBBB);
    assert_eq!(f.len(), 2);
    assert_eq!(f.ready.len(), 1);

    let op = f.pop_op().expect("op");
    assert_eq!(op.cmd, 0x23);
    assert_eq!(op.params, vec![0xAAAA_AAAA, 0xBBBB_BBBB]);
    assert_eq!(f.len(), 0);
}

#[test]
fn test_direct_port_write_past_full_preserves_command_stream() {
    let mut f = GxFifo::new();
    for _ in 0..FIFO_CAPACITY {
        f.write_direct(GxCmd::MtxPush, 0);
    }
    assert!(f.is_full());
    assert!(!f.overflow);
    f.write_direct(GxCmd::MtxPush, 0);
    assert!(!f.overflow);
    assert_eq!(f.len(), FIFO_CAPACITY + 1);
    assert_eq!(f.ready.len(), FIFO_CAPACITY + 1);
    assert_eq!(f.gxstat_high_bits(false) & 0x01FF, 256);
}

#[test]
fn test_below_half_edge_after_drain() {
    let mut f = GxFifo::new();
    // Push 200 op-pairs that each consume 1 word; drop the half-flag
    // first since fill doesn't set it.
    for _ in 0..200 {
        f.write_packed(0x0000_0011); // MTX_PUSH, zero params
    }
    let _ = f.take_below_half_edge(); // discard whatever push set
                                      // Drain back below 128.
    for _ in 0..80 {
        let _ = f.pop_op();
    }
    assert!(
        f.take_below_half_edge(),
        "should signal below-half on drain"
    );
}

#[test]
fn test_stat_low_bits_for_empty_fifo() {
    let f = GxFifo::new();
    let s = f.gxstat_high_bits(false);
    assert!(s & (1 << 10) != 0, "empty");
    assert!(s & (1 << 9) != 0, "less than half");
    assert!(s & (1 << 11) == 0, "not busy");
}

#[test]
fn test_less_than_half_irq_uses_decoded_entry_count() {
    let mut f = GxFifo::new();
    f.set_irq_mode(1);

    for _ in 0..32 {
        f.write_packed(0x1515_1515);
        f.write_packed(0);
    }

    assert_eq!(f.len(), FIFO_HALF);
    assert!(
        !f.irq_condition(),
        "128 decoded entries is not less than half full"
    );
}
