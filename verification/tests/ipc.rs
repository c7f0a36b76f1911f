#![allow(unused_imports)]

use nds_core::ipc::{Ipc, Side, FIFO_DEPTH};

#[test]
fn test_sync_round_trip() {
    let mut ipc = Ipc::new();
    // ARM9 writes send=0xA, recv-irq-en=1
    ipc.write_sync(Side::Arm9, (0xA << 8) | (1 << 14));
    // ARM7 reads — should see 0xA in low nibble (recv_data)
    assert_eq!(ipc.read_sync(Side::Arm7) & 0xF, 0xA);
    // ARM9's read should see its own send in bits 11:8
    assert_eq!((ipc.read_sync(Side::Arm9) >> 8) & 0xF, 0xA);
    // ARM9's bit 14 should reflect the irq-enable
    assert!(ipc.read_sync(Side::Arm9) & (1 << 14) != 0);
}

#[test]
fn test_sync_trigger_only_when_other_enabled() {
    let mut ipc = Ipc::new();
    // ARM7 has recv-irq-en NOT set → ARM9 trigger should not raise.
    let raised = ipc.write_sync(Side::Arm9, (0x5 << 8) | (1 << 13));
    assert!(!raised);

    // ARM7 enables recv-irq.
    ipc.write_sync(Side::Arm7, 1 << 14);

    // Now ARM9 trigger should report "raise on ARM7".
    let raised = ipc.write_sync(Side::Arm9, (0x5 << 8) | (1 << 13));
    assert!(raised);
}

#[test]
fn test_sync_trigger_does_not_latch() {
    let mut ipc = Ipc::new();
    ipc.write_sync(Side::Arm7, 1 << 14);
    ipc.write_sync(Side::Arm9, (0x1 << 8) | (1 << 13));
    // Reading back, bit 13 should be 0.
    assert_eq!(ipc.read_sync(Side::Arm9) & (1 << 13), 0);
}

#[test]
fn test_fifo_disabled_blocks_writes() {
    let mut ipc = Ipc::new();
    // No enable bit set
    ipc.write_send(Side::Arm9, 0xDEADBEEF);
    assert!(ipc.fifo_9to7.is_empty());
}

fn enable_both(ipc: &mut Ipc) {
    ipc.write_fifocnt(Side::Arm9, 1 << 15);
    ipc.write_fifocnt(Side::Arm7, 1 << 15);
}

#[test]
fn test_fifo_push_and_pop() {
    let mut ipc = Ipc::new();
    enable_both(&mut ipc);
    ipc.write_send(Side::Arm9, 0x1111_2222);
    let (val, _) = ipc.read_recv(Side::Arm7);
    assert_eq!(val, 0x1111_2222);
    // Now the queue should be empty
    let (val, _) = ipc.read_recv(Side::Arm7);
    // Empty read returns last popped value
    assert_eq!(val, 0x1111_2222);
    assert!(ipc.fifo_arm7_error);
}

#[test]
fn test_fifo_overflow_sets_error_and_drops_write() {
    let mut ipc = Ipc::new();
    enable_both(&mut ipc);
    for i in 0..FIFO_DEPTH as u32 {
        ipc.write_send(Side::Arm9, i);
    }
    assert_eq!(ipc.fifo_9to7.len(), FIFO_DEPTH);
    // 17th push: should drop and set error.
    ipc.write_send(Side::Arm9, 0xDEAD);
    assert_eq!(ipc.fifo_9to7.len(), FIFO_DEPTH);
    assert!(ipc.fifo_arm9_error);
}

#[test]
fn test_recv_not_empty_irq_only_on_transition() {
    let mut ipc = Ipc::new();
    enable_both(&mut ipc);
    // ARM7 enables recv IRQ
    ipc.write_fifocnt(Side::Arm7, (1 << 15) | (1 << 10));

    // First push: ARM7 was empty → IRQ should raise.
    let raised1 = ipc.write_send(Side::Arm9, 1);
    assert!(raised1);

    // Second push: ARM7 already non-empty → no new IRQ.
    let raised2 = ipc.write_send(Side::Arm9, 2);
    assert!(!raised2);

    // Drain.
    ipc.read_recv(Side::Arm7);
    ipc.read_recv(Side::Arm7);

    // Push again: empty→non-empty again → IRQ.
    let raised3 = ipc.write_send(Side::Arm9, 3);
    assert!(raised3);
}

#[test]
fn test_send_empty_irq_only_on_drain_to_empty() {
    let mut ipc = Ipc::new();
    enable_both(&mut ipc);
    // ARM9 enables send-empty IRQ; pushes two words.
    ipc.write_fifocnt(Side::Arm9, (1 << 15) | (1 << 2));
    ipc.write_send(Side::Arm9, 1);
    ipc.write_send(Side::Arm9, 2);

    // ARM7 reads first — queue still non-empty → no send-empty IRQ.
    let (_, raised1) = ipc.read_recv(Side::Arm7);
    assert!(!raised1);

    // ARM7 reads second — drains to empty → ARM9 should be raised.
    let (_, raised2) = ipc.read_recv(Side::Arm7);
    assert!(raised2);
}

#[test]
fn test_enabling_send_empty_irq_raises_if_fifo_already_empty() {
    let mut ipc = Ipc::new();
    enable_both(&mut ipc);

    let effects = ipc.write_fifocnt(Side::Arm9, (1 << 15) | (1 << 2));

    assert!(effects.raise_send_empty_on_self);
}

#[test]
fn test_fifocnt_status_bits() {
    let mut ipc = Ipc::new();
    enable_both(&mut ipc);

    let cnt = ipc.read_fifocnt(Side::Arm9);
    assert!(cnt & (1 << 0) != 0, "send empty");
    assert!(cnt & (1 << 8) != 0, "recv empty");
    assert!(cnt & (1 << 15) != 0, "enable");

    ipc.write_send(Side::Arm9, 0xAA);
    let cnt = ipc.read_fifocnt(Side::Arm9);
    assert!(cnt & (1 << 0) == 0, "send no longer empty");

    let cnt7 = ipc.read_fifocnt(Side::Arm7);
    assert!(cnt7 & (1 << 8) == 0, "ARM7 sees recv non-empty");
}

#[test]
fn test_clear_send_fifo_via_bit3() {
    let mut ipc = Ipc::new();
    enable_both(&mut ipc);
    for i in 0..5 {
        ipc.write_send(Side::Arm9, i);
    }
    assert_eq!(ipc.fifo_9to7.len(), 5);
    // ARM9 writes bit 3 set → clears its OWN send FIFO.
    ipc.write_fifocnt(Side::Arm9, (1 << 15) | (1 << 3));
    assert!(ipc.fifo_9to7.is_empty());
}

#[test]
fn test_error_flag_cleared_by_writing_one() {
    let mut ipc = Ipc::new();
    enable_both(&mut ipc);
    // Trigger an error by reading empty.
    ipc.read_recv(Side::Arm9);
    assert!(ipc.fifo_arm9_error);
    // Write FIFOCNT with bit 14 set → clears.
    ipc.write_fifocnt(Side::Arm9, (1 << 15) | (1 << 14));
    assert!(!ipc.fifo_arm9_error);
}

#[test]
fn test_in_order_delivery() {
    let mut ipc = Ipc::new();
    enable_both(&mut ipc);
    for i in 0..4 {
        ipc.write_send(Side::Arm9, i + 100);
    }
    for i in 0..4 {
        let (v, _) = ipc.read_recv(Side::Arm7);
        assert_eq!(v, i + 100);
    }
}
