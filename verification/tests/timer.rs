#![allow(unused_imports)]

use nds_core::timer::Timers;

#[test]
fn test_basic_tick() {
    let mut t = Timers::new();
    t.write_reload(0, 0xFFF0);
    t.write_control(0, 1 << 7);
    assert_eq!(t.timers[0].counter, 0xFFF0);
    let r = t.tick(10);
    assert_eq!(t.timers[0].counter, 0xFFFA);
    assert!(!r.irqs[0]);
}

#[test]
fn test_overflow_raises_irq() {
    let mut t = Timers::new();
    t.write_reload(0, 0xFFF0);
    t.write_control(0, (1 << 7) | (1 << 6));
    let r = t.tick(20);
    assert_eq!(t.timers[0].counter, 0xFFF4);
    assert!(r.irqs[0]);
}

#[test]
fn test_prescaler_64() {
    let mut t = Timers::new();
    t.write_reload(0, 0);
    t.write_control(0, (1 << 7) | 1);
    t.tick(63);
    assert_eq!(t.timers[0].counter, 0);
    t.tick(1);
    assert_eq!(t.timers[0].counter, 1);
}

#[test]
fn test_cascade() {
    let mut t = Timers::new();
    t.write_reload(0, 0xFFFF);
    t.write_control(0, 1 << 7);
    t.write_reload(1, 0);
    t.write_control(1, (1 << 7) | (1 << 2));
    let r = t.tick(1);
    assert!(!r.irqs[0]); // no IRQ enable
    assert_eq!(t.timers[1].counter, 1);
}

#[test]
fn test_reload_on_enable() {
    let mut t = Timers::new();
    t.write_reload(0, 0x1234);
    assert_eq!(t.timers[0].counter, 0);
    t.write_control(0, 1 << 7);
    assert_eq!(t.timers[0].counter, 0x1234);
}
