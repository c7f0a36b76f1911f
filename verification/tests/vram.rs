#![allow(unused_imports)]

use nds_core::vram::{decode_target, BankId, VramRouter, VramTarget};

#[test]
fn test_decode_bank_a_lcdc() {
    let t = decode_target(BankId::A, 0x80); // enable + mst=0
    assert!(matches!(t, VramTarget::Lcdc { lcdc_offset: 0 }));
}

#[test]
fn test_decode_bank_a_engine_bg_offset_2() {
    // enable + mst=1 + offset=2
    let t = decode_target(BankId::A, 0x80 | (2 << 3) | 1);
    assert!(matches!(t, VramTarget::EngineABg { base: 0x40000 }));
}

#[test]
fn test_decode_bank_c_engine_b_bg() {
    let t = decode_target(BankId::C, 0x80 | 4);
    assert!(matches!(t, VramTarget::EngineBBg { base: 0 }));
}

#[test]
fn test_decode_bank_d_engine_b_obj() {
    let t = decode_target(BankId::D, 0x80 | 4);
    assert!(matches!(t, VramTarget::EngineBObj { base: 0 }));
}

#[test]
fn test_decode_bank_disabled_when_enable_off() {
    let t = decode_target(BankId::A, 0x01); // enable=0
    assert!(matches!(t, VramTarget::Disabled));
}

#[test]
fn test_arm9_write_routes_to_engine_a_bg() {
    let mut r = VramRouter::new();
    // Bank A → Engine A BG at offset 0
    r.write_cnt(BankId::A, 0x80 | 1);
    // Write to 0x06000010 — should hit bank A at byte 0x10
    r.cpu_write_arm9(0x06000010, 0xAB);
    assert_eq!(r.cpu_read_arm9(0x06000010), 0xAB);
    // Read engine-side too
    assert_eq!(r.read_engine_a_bg(0x10), 0xAB);
}

#[test]
fn test_engine_b_bg_via_bank_c() {
    let mut r = VramRouter::new();
    r.write_cnt(BankId::C, 0x80 | 4); // mst=4 → Engine B BG
    r.cpu_write_arm9(0x06200020, 0x55);
    assert_eq!(r.read_engine_b_bg(0x20), 0x55);
}

#[test]
fn test_engine_b_obj_via_bank_d() {
    let mut r = VramRouter::new();
    r.write_cnt(BankId::D, 0x80 | 4);
    r.cpu_write_arm9(0x06600040, 0xF0);
    assert_eq!(r.read_engine_b_obj(0x40), 0xF0);
}

#[test]
fn test_arm7_routing_on_bank_c() {
    let mut r = VramRouter::new();
    // Bank C → ARM7 mst=2, offset=0
    r.write_cnt(BankId::C, 0x80 | 2);
    r.cpu_write_arm7(0x06000010, 0x77);
    assert_eq!(r.cpu_read_arm7(0x06000010), 0x77);
}

#[test]
fn test_overlapping_writes_go_to_all_matching_banks() {
    let mut r = VramRouter::new();
    // Bank A and B both route to Engine A BG offset 0 (mst=1, offset=0)
    r.write_cnt(BankId::A, 0x80 | 1);
    r.write_cnt(BankId::B, 0x80 | 1);
    r.cpu_write_arm9(0x06000000, 0x42);
    // Both banks should hold the byte
    assert_eq!(r.banks[BankId::A as usize].data[0], 0x42);
    assert_eq!(r.banks[BankId::B as usize].data[0], 0x42);
}

#[test]
fn test_disabled_bank_does_not_respond() {
    let mut r = VramRouter::new();
    r.write_cnt(BankId::A, 0x00); // disable
    r.cpu_write_arm9(0x06000000, 0x99);
    assert_eq!(r.cpu_read_arm9(0x06000000), 0);
}

#[test]
fn test_lcdc_window_access() {
    let mut r = VramRouter::new();
    r.write_cnt(BankId::A, 0x80); // mst=0 → LCDC
    r.cpu_write_arm9(0x06800010, 0x33);
    assert_eq!(r.cpu_read_arm9(0x06800010), 0x33);
}
