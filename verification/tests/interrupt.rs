#![allow(unused_imports)]

use nds_core::{InterruptController, Irq};

#[test]
fn test_request_and_pending() {
    let mut ic = InterruptController::new();
    ic.ime = true;
    ic.ie = Irq::VBlank.bit();
    assert!(!ic.has_pending());
    ic.request(Irq::VBlank);
    assert!(ic.has_pending());
    ic.write_if(Irq::VBlank.bit());
    assert!(!ic.has_pending());
}

#[test]
fn test_ime_off_blocks_pending() {
    let mut ic = InterruptController::new();
    ic.ime = false;
    ic.ie = Irq::VBlank.bit();
    ic.request(Irq::VBlank);
    assert!(!ic.has_pending());
}

#[test]
fn test_request_disabled_source_does_not_raise() {
    let mut ic = InterruptController::new();
    ic.ime = true;
    ic.ie = 0;
    ic.request(Irq::Dma0);
    assert!(!ic.has_pending());
}

#[test]
fn test_ipc_recv_not_empty_bit_position() {
    // Bit 18 — used by every IPC-driven game. Worth nailing down.
    assert_eq!(Irq::IpcRecvNotEmpty.bit(), 1 << 18);
}
