#![allow(unused_imports)]

use nds_core::spi::Pmic;

#[test]
fn test_read_default_control() {
    let mut p = Pmic::new();
    let _addr = p.xfer(0x80 | 0, false); // read reg 0
    let val = p.xfer(0x00, false);
    assert_eq!(val & 0x01, 0x01, "sound enable should be on by default");
    assert_eq!(val & 0x10, 0x10, "top backlight on");
    assert_eq!(val & 0x20, 0x20, "bottom backlight on");
}

#[test]
fn test_write_then_read_back() {
    let mut p = Pmic::new();
    // Write 0x42 to reg 2 (amplifier gain). One SPI transaction.
    let _ = p.xfer(0x02, true);    // address byte, write
    let _ = p.xfer(0x42, false);   // data byte
    // Real hardware: hold=false → CS deassert → device resets.
    // Mirror that here so the next transaction starts from Idle.
    p.reset();

    let _ = p.xfer(0x80 | 0x02, true); // address byte, read
    let val = p.xfer(0x00, false);
    assert_eq!(val, 0x42);
}
