#![allow(unused_imports)]

use nds_core::spi::tsc::{Tsc, ADC_X1, ADC_X2, ADC_Y1, ADC_Y2};

/// Issue a 3-byte conversion sequence for the given channel and return
/// the reconstructed 12-bit value.
fn read_channel(tsc: &mut Tsc, channel: u8) -> u16 {
    let control = 0x80 | (channel << 4); // start bit + channel
    let _ = tsc.xfer(control, true);
    let hi = tsc.xfer(0, true);
    let lo = tsc.xfer(0, false);
    // 12-bit reconstruction: hi has bits [11:5], lo has bits [4:0] in [7:3].
    ((hi as u16) << 5) | ((lo as u16) >> 3)
}

#[test]
fn test_x_endpoints_round_trip() {
    let mut tsc = Tsc::new();
    tsc.set_touch(0, 0, true);
    assert_eq!(read_channel(&mut tsc, 5), ADC_X1, "X=0 should map to ADC_X1");
    tsc.set_touch(255, 0, true);
    assert_eq!(read_channel(&mut tsc, 5), ADC_X2, "X=255 should map to ADC_X2");
}

#[test]
fn test_y_endpoints_round_trip() {
    let mut tsc = Tsc::new();
    tsc.set_touch(0, 0, true);
    assert_eq!(read_channel(&mut tsc, 1), ADC_Y1);
    tsc.set_touch(0, 191, true);
    assert_eq!(read_channel(&mut tsc, 1), ADC_Y2);
}

#[test]
fn test_z_nonzero_when_pen_down() {
    let mut tsc = Tsc::new();
    tsc.set_touch(100, 100, true);
    assert!(read_channel(&mut tsc, 3) > 0);
    tsc.set_touch(100, 100, false);
    assert_eq!(read_channel(&mut tsc, 3), 0);
}

#[test]
fn test_idle_byte_returns_zero() {
    let mut tsc = Tsc::new();
    // No start bit → return 0, stay idle.
    let r = tsc.xfer(0x00, false);
    assert_eq!(r, 0);
}
