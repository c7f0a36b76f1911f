#![allow(unused_imports)]

use nds_core::gpu3d::GxCmd;

#[test]
fn test_known_param_counts() {
    assert_eq!(GxCmd::MtxIdentity.param_count(), 0);
    assert_eq!(GxCmd::MtxMode.param_count(), 1);
    assert_eq!(GxCmd::Vtx16.param_count(), 2);
    assert_eq!(GxCmd::MtxScale.param_count(), 3);
    assert_eq!(GxCmd::MtxMult3x3.param_count(), 9);
    assert_eq!(GxCmd::MtxLoad4x3.param_count(), 12);
    assert_eq!(GxCmd::MtxLoad4x4.param_count(), 16);
    assert_eq!(GxCmd::Shininess.param_count(), 32);
}

#[test]
fn test_from_u8_round_trip() {
    for b in [0x10u8, 0x16, 0x20, 0x23, 0x29, 0x32, 0x40, 0x50, 0x60, 0x70] {
        assert!(GxCmd::from_u8(b).is_some(), "0x{:02X} should decode", b);
    }
    assert!(GxCmd::from_u8(0xFF).is_none());
}

#[test]
fn test_direct_port_addr_for_mtx_mode() {
    // MTX_MODE (0x10) is at offset 0x40 from 0x04000400 = 0x04000440.
    assert_eq!(GxCmd::MtxMode.direct_port_addr(), 0x0400_0440);
}

#[test]
fn test_direct_port_addr_for_vtx16() {
    // VTX_16 = 0x23 → offset = 0x40 + (0x23 - 0x10) * 4 = 0x40 + 0x4C = 0x8C.
    // Absolute: 0x04000400 + 0x8C = 0x0400048C.
    assert_eq!(GxCmd::Vtx16.direct_port_addr(), 0x0400_048C);
}
