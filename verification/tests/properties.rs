use nds_core::bgr555;
use nds_core::crc::crc16_modbus;
use nds_core::gpu3d::raster::triangle::rasterize_polygon;
use nds_core::gpu3d::viewport::transform_vertex;
use nds_core::gpu3d::{
    clip_polygon, Engine3d, GxCmd, GxFifo, GxOp, Matrix, MatrixStacks, MtxMode, PrimitiveType, Rasterizer,
    ScreenPolygon, ScreenVertex, Vertex, VertexState, Viewport, FB_WIDTH, ONE,
};
use nds_core::ipc::{Ipc, Side};
use nds_core::spi::firmware::{Firmware, USER_SETTINGS_OFFSET_1, USER_SETTINGS_OFFSET_2};
use nds_core::spi::tsc::{Tsc, ADC_X1, ADC_X2, ADC_Y1, ADC_Y2};
use nds_core::spi::{Device, Pmic, SpiBus};
use nds_core::timer::{Timer, Timers};
use nds_core::vram::{decode_target, BankId, VramRouter, VramTarget};
use nds_core::{
    CpuId, Event, EventKind, InterruptController, Irq, Scheduler, CYCLES_PER_FRAME_ARM7,
    CYCLES_PER_LINE_ARM7, HBLANK_CYCLES_ARM7, HDRAW_CYCLES_ARM7, LINES_PER_FRAME,
};

#[test]
fn colors_pack_and_unpack() {
    assert_eq!(bgr555::channels(0x7C1F), (31, 0, 31));
    assert_eq!(bgr555::make(1, 2, 3), 1 + 64 + 3072);
    assert_eq!(bgr555::set_mark(0x1234), 0x9234);
    for c in [0u16, 0x001F, 0x03E0, 0x7C00, 0x7FFF, 0x1234] {
        let (r, g, b) = bgr555::channels(c);
        assert_eq!(bgr555::make(r, g, b), c);
    }
}

#[test]
fn checksum_of_digits() {
    assert_eq!(crc16_modbus(b"123456789"), 0x4B37);
    assert_eq!(crc16_modbus(&[]), 0xFFFF);
}

#[test]
fn checksum_cancels() {
    let mut data = vec![1u8, 2, 3, 250, 99];
    let crc = crc16_modbus(&data);
    data.push(crc as u8);
    data.push((crc >> 8) as u8);
    assert_eq!(crc16_modbus(&data), 0);
}

#[test]
fn interrupt_bits_and_acknowledge() {
    let mut ic = InterruptController::new();
    assert_eq!(Irq::WiFi.bit(), 1 << 24);
    ic.raise_bits(0b1011);
    ic.acknowledge(0b0010);
    assert_eq!(ic.read_if(), 0b1001);
    ic.write_ie(0b1000);
    assert!(ic.has_unmasked_irq());
    assert!(ic.has_matching_irq(0b1000));
    assert!(!ic.has_matching_irq(0b0001));
    ic.write_ime(3);
    assert_eq!(ic.read_ime(), 1);
    assert!(ic.has_pending());
    ic.write_ime(2);
    assert_eq!(ic.read_ime(), 0);
    assert!(!ic.has_pending());
}

#[test]
fn ipc_reads_disabled_fifo_as_zero() {
    let mut ipc = Ipc::new();
    assert_eq!(ipc.read_recv(Side::Arm9), (0, false));
    assert!(!ipc.fifo_arm9_error);
}

#[test]
fn ipc_full_flags() {
    let mut ipc = Ipc::new();
    ipc.write_fifocnt(Side::Arm9, 1 << 15);
    for i in 0..16 {
        ipc.write_send(Side::Arm9, i);
    }
    assert_eq!(ipc.read_fifocnt(Side::Arm9), 0x8000 | 0x100 | 2);
    assert_eq!(ipc.read_fifocnt(Side::Arm7), 0x200 | 1);
}

#[test]
fn ipc_enabling_receive_interrupt_with_words_waiting() {
    let mut ipc = Ipc::new();
    ipc.write_fifocnt(Side::Arm9, 1 << 15);
    ipc.write_send(Side::Arm9, 7);
    let effects = ipc.write_fifocnt(Side::Arm7, (1 << 15) | (1 << 10));
    assert!(effects.raise_recv_not_empty_on_self);
    assert!(!effects.raise_send_empty_on_self);
}

#[test]
fn ipc_interrupt_helpers() {
    let mut ic = InterruptController::new();
    nds_core::ipc::raise_recv_not_empty(&mut ic);
    nds_core::ipc::raise_send_empty(&mut ic);
    assert_eq!(ic.read_if(), (1 << 18) | (1 << 17));
    assert_eq!(Side::Arm9.other(), Side::Arm7);
}

#[test]
fn events_of_one_time_fire_in_the_order_of_scheduling() {
    let mut s = Scheduler::new();
    s.schedule(Event { fire_time: 5, kind: EventKind::AudioSample });
    s.schedule(Event { fire_time: 5, kind: EventKind::TimerOverflow(CpuId::Arm9, 1) });
    s.schedule(Event { fire_time: 4, kind: EventKind::SwapBuffers });
    s.add_cycles(5);
    assert_eq!(s.pop_if_ready().unwrap().kind, EventKind::SwapBuffers);
    assert_eq!(s.pop_if_ready().unwrap().kind, EventKind::AudioSample);
    assert_eq!(s.pop_if_ready().unwrap().kind, EventKind::TimerOverflow(CpuId::Arm9, 1));
    assert!(s.pop_if_ready().is_none());
    assert_eq!(s.peek_time(), None);
}

#[test]
fn time_never_moves_back() {
    let mut s = Scheduler::new();
    s.advance_to(10);
    s.advance_to(3);
    assert_eq!(s.timestamp(), 10);
    s.add_cycles(u64::MAX);
    assert_eq!(s.timestamp(), 9);
}

#[test]
fn counting_adds_up() {
    for (a, b) in [(0u64, 5u64), (3, 40), (17, 16), (100, 1), (65, 1000)] {
        let mut once = Timer { reload: 0xFFF0, counter: 0xFFFA, control: 0x80, prescaler_counter: 0 };
        let mut twice = once;
        let n = once.increment(a + b);
        let m = twice.increment(a) + twice.increment(b);
        assert_eq!(n, m);
        assert_eq!(once.counter, twice.counter);
    }
}

#[test]
fn ticking_in_steps_is_ticking_at_once() {
    let mut whole = Timers::new();
    whole.write_reload(0, 0xFF00);
    whole.write_control(0, 0x81);
    let mut parts = whole;
    whole.tick(5000);
    for _ in 0..50 {
        parts.tick(100);
    }
    assert_eq!(whole.read_counter(0), parts.read_counter(0));
    assert_eq!(whole.read_control(0), 0x81);
}

#[test]
fn cascade_interrupts_and_stops_when_disabled() {
    let mut t = Timers::new();
    t.write_reload(0, 0xFFFF);
    t.write_control(0, 0x80);
    t.write_reload(1, 0xFFFF);
    t.write_control(1, 0xC4);
    assert!(t.tick(1).irqs[1]);
    t.write_control(0, 0);
    assert!(!t.tick(1).irqs[1]);
}

#[test]
fn readings_give_the_pixels_back() {
    let mut tsc = Tsc::new();
    let (x_span, y_span) = ((ADC_X2 - ADC_X1) as u32, (ADC_Y2 - ADC_Y1) as u32);
    for x in 0..256u16 {
        tsc.set_touch(x, 0, true);
        let d = (tsc.adc_x() - ADC_X1) as u32;
        assert_eq!((2 * d * 255 + x_span) / (2 * x_span), x as u32);
    }
    for y in 0..192u16 {
        tsc.set_touch(0, y, true);
        let d = (tsc.adc_y() - ADC_Y1) as u32;
        assert_eq!((2 * d * 191 + y_span) / (2 * y_span), y as u32);
    }
    tsc.set_touch(1, 1, true);
    assert_eq!(tsc.adc_x(), 0x20C);
    assert_eq!(tsc.adc_y(), 0x210);
    tsc.set_touch(1000, 1000, false);
    assert_eq!((tsc.screen_x, tsc.screen_y), (255, 191));
}

#[test]
fn conversion_modes_and_channels() {
    let mut tsc = Tsc::new();
    // Battery, 8-bit.
    assert_eq!(tsc.xfer(0x80 | (2 << 4) | 8, true), 0);
    assert_eq!(tsc.xfer(0, true), 0xCC);
    assert_eq!(tsc.xfer(0, false), 0);
    // Battery, 12-bit.
    tsc.xfer(0x80 | (2 << 4), true);
    assert_eq!(tsc.xfer(0, true), 0x66);
    assert_eq!(tsc.xfer(0, false), 0x60);
}

#[test]
fn programmed_bytes_are_read_back() {
    let mut fw = Firmware::new();
    fw.xfer(0x06, false);
    fw.reset();
    for b in [0x0A, 0x01, 0x23, 0x45, 0xDE, 0xAD] {
        fw.xfer(b, true);
    }
    fw.reset();
    for b in [0x03, 0x01, 0x23, 0x45] {
        fw.xfer(b, true);
    }
    assert_eq!(fw.xfer(0, true), 0xDE);
    assert_eq!(fw.xfer(0, true), 0xAD);
    assert_eq!(fw.xfer(0, true), 0);
}

#[test]
fn flash_is_write_protected_at_first_and_after_an_erase() {
    let mut fw = Firmware::new();
    for b in [0xD8, 0x03, 0xFE, 0x00] {
        fw.xfer(b, true);
    }
    assert_eq!(fw.data[USER_SETTINGS_OFFSET_1], 5);
    fw.xfer(0x06, false);
    assert_eq!(fw.status, 2);
    for b in [0xD8, 0x03, 0xFE, 0x80] {
        fw.xfer(b, true);
    }
    assert_eq!(fw.data[USER_SETTINGS_OFFSET_1], 0xFF);
    assert_eq!(fw.data[USER_SETTINGS_OFFSET_2], 5);
    assert_eq!(fw.status, 0);
    assert_eq!(fw.xfer(0x42, false), 0xFF);
    fw.xfer(0x06, false);
    fw.xfer(0x04, false);
    assert_eq!(fw.status, 0);
}

#[test]
fn default_settings_hold_the_calibration() {
    let fw = Firmware::new();
    let s = &fw.data[USER_SETTINGS_OFFSET_1..];
    assert_eq!(&s[0x58..0x64], &[0, 2, 0, 2, 0, 0, 0, 0x0E, 0, 0x0E, 255, 191]);
    assert_eq!(&s[0x06..0x0C], &[b'N', 0, b'D', 0, b'S', 0]);
    assert_eq!(s[0x64], 1);
    assert_eq!(s[0x70], 1);
    assert_eq!(fw.data[USER_SETTINGS_OFFSET_2 + 0x70], 0);
    assert_eq!(fw.data[USER_SETTINGS_OFFSET_2 + 0x72], s[0x72]);
}

#[test]
fn dump_replaces_the_start_of_the_flash() {
    let mut fw = Firmware::new();
    fw.load_dump(&[7, 8, 9]);
    assert_eq!(&fw.data[..4], &[7, 8, 9, 0]);
    assert_eq!(fw.data.len(), 0x40000);
    assert_eq!(fw.data[USER_SETTINGS_OFFSET_1], 5);
}

#[test]
fn power_chip_registers_persist() {
    let mut p = Pmic::new();
    p.xfer(0x05, true);
    p.xfer(0x5A, true);
    p.reset();
    p.xfer(0x85, true);
    assert_eq!(p.xfer(0xFF, true), 0x5A);
    assert_eq!(p.regs[5], 0x5A);
    assert_eq!(p.regs[0], 0x31);
}

#[test]
fn spi_transfer_reaches_the_selected_device() {
    let mut spi = SpiBus::new();
    assert_eq!(Device::from_bits(3 << 8), Device::Reserved);
    spi.write_cnt(0x8000 | (3 << 8) | 0x80);
    assert_eq!(spi.read_cnt(), 0x8300);
    assert!(!spi.write_data(0x12));
    assert_eq!(spi.read_data(), 0xFF);
    // Write register 2 of the power chip, with the interrupt enabled.
    spi.write_cnt(0x8000 | 0x4000 | 0x800);
    assert!(spi.write_data(0x02));
    spi.write_cnt(0x8000);
    spi.write_data(0x77);
    assert_eq!(spi.pmic.regs[2], 0x77);
    assert!(!spi.cs_held);
    assert!(spi.enabled());
}

#[test]
fn switching_devices_without_hold_resets_the_first() {
    let mut spi = SpiBus::new();
    spi.write_cnt(0x8000 | (1 << 8));
    spi.write_data(0x03);
    // The command was dropped when chip select was released.
    spi.write_cnt(0x8000 | (1 << 8) | 0x800);
    spi.write_data(0x9F);
    spi.write_data(0);
    assert_eq!(spi.read_data(), 0xC2);
}

#[test]
fn frame_constants_fit_together() {
    assert_eq!(HDRAW_CYCLES_ARM7 + HBLANK_CYCLES_ARM7, CYCLES_PER_LINE_ARM7);
    assert_eq!(CYCLES_PER_LINE_ARM7 as u64 * LINES_PER_FRAME as u64, CYCLES_PER_FRAME_ARM7);
}

#[test]
fn every_command_keeps_its_code() {
    let mut known = 0;
    for b in 0..=255u8 {
        if let Some(cmd) = GxCmd::from_u8(b) {
            assert_eq!(cmd.opcode(), b);
            assert_eq!(cmd.direct_port_addr(), 0x0400_0400 + b as u32 * 4);
            known += 1;
        }
    }
    assert!(known > 30);
}

#[test]
fn strips_give_a_polygon_per_vertex() {
    let s = MatrixStacks::new();
    let mut v = VertexState::new();
    v.begin(PrimitiveType::TriangleStrip);
    for i in 0..7 {
        v.submit_vertex([i * 16, (i % 2) * 16, 0], &s);
    }
    assert_eq!(v.polygon_buffer.len(), 5);
    let mut v = VertexState::new();
    v.begin(PrimitiveType::QuadStrip);
    for i in 0..8 {
        v.submit_vertex([i * 16, (i % 2) * 16, 0], &s);
    }
    assert_eq!(v.polygon_buffer.len(), 3);
}

#[test]
fn pop_undoes_push() {
    let mut s = MatrixStacks::new();
    s.set_mode(MtxMode::PosVector);
    s.translate(ONE, 2 * ONE, 3 * ONE);
    let (p, v) = (s.position, s.vector);
    s.push();
    s.scale(2 * ONE, 2 * ONE, 2 * ONE);
    s.mult(Matrix::identity().mul_translate(9, 9, 9));
    s.pop(1);
    assert_eq!(s.position, p);
    assert_eq!(s.vector, v);
    assert_eq!(s.position_sp, 0);
    assert!(!s.overflow);
}

#[test]
fn view_volume_maps_to_the_viewport() {
    for (clip, at) in [
        ([-ONE, ONE, 0, ONE], (0, 0)),
        ([ONE, -ONE, 0, ONE], (255 * 256, 191 * 256)),
    ] {
        let s = transform_vertex(&Vertex::new(clip, 0, [0, 0]), Viewport::full_screen());
        assert_eq!((s.screen_x, s.screen_y), at);
    }
}

#[test]
fn clipped_polygon_lies_in_the_volume() {
    let tri = [
        Vertex::new([3 * ONE, 0, 0, ONE], 0, [0, 0]),
        Vertex::new([-3 * ONE, ONE / 2, 0, ONE], 0, [0, 0]),
        Vertex::new([0, -3 * ONE, ONE / 2, ONE], 0, [0, 0]),
    ];
    let out = clip_polygon(&tri).expect("visible");
    for v in &out {
        for k in 0..3 {
            assert!(v.clip[k] >= -v.clip[3] && v.clip[k] <= v.clip[3]);
        }
    }
}

fn triangle(color: u16, depth: i32, alpha: u32, id: u32) -> ScreenPolygon {
    let corner = |x: i32, y: i32| ScreenVertex {
        screen_x: x << 8,
        screen_y: y << 8,
        depth_z: depth,
        w: ONE,
        color,
        tex: [0, 0],
    };
    ScreenPolygon {
        vertices: vec![corner(20, 20), corner(120, 20), corner(70, 120)],
        attr: (alpha << 16) | (1 << 6) | (1 << 7) | (id << 24),
        tex_image_param: 0,
        palette_base: 0,
        front_area_negative: true,
    }
}

#[test]
fn frame_does_not_depend_on_the_one_before() {
    let p = [triangle(0x001F, 100, 31, 1)];
    let mut fresh = Rasterizer::new();
    fresh.render_frame(&p, None);
    let mut used = Rasterizer::new();
    used.render_frame(&[triangle(0x7C00, 5, 31, 2), triangle(0x03E0, 1, 12, 3)], None);
    used.render_frame(&p, None);
    assert_eq!(fresh.framebuffer, used.framebuffer);
    assert_eq!(fresh.depth_buffer, used.depth_buffer);
    assert_eq!(fresh.id_buffer, used.id_buffer);
    assert_eq!(fresh.alpha_buffer, used.alpha_buffer);
}

#[test]
fn empty_frame_is_the_rear_plane() {
    let mut r = Rasterizer::new();
    r.clear_color = 0x03E0 | (31 << 16) | (5 << 24);
    r.render_frame(&[], None);
    assert!(r.framebuffer.iter().all(|&p| p == 0x83E0));
    assert!(r.id_buffer.iter().all(|&i| i == 5));
}

#[test]
fn closer_opaque_pixel_wins() {
    let mut r = Rasterizer::new();
    rasterize_polygon(&triangle(0x001F, 10, 31, 1), &mut r, None);
    rasterize_polygon(&triangle(0x7C00, 2000, 31, 2), &mut r, None);
    assert_eq!(r.framebuffer[40 * FB_WIDTH + 70] & 0x7FFF, 0x001F);
    rasterize_polygon(&triangle(0x03E0, -2000, 31, 3), &mut r, None);
    assert_eq!(r.framebuffer[40 * FB_WIDTH + 70] & 0x7FFF, 0x03E0);
}

#[test]
fn no_swap_without_request() {
    let mut e = Engine3d::new();
    e.geometry_polygons.push(triangle(0x001F, 0, 31, 1));
    e.swap_buffers(None);
    assert_eq!(e.geometry_polygons.len(), 1);
    assert!(e.raster_polygons.is_empty());
    e.dispatch(GxOp { cmd: GxCmd::SwapBuffers.opcode(), params: vec![0] });
    e.swap_buffers(None);
    assert!(e.geometry_polygons.is_empty());
    assert_eq!(e.raster_polygons.len(), 1);
    assert_eq!(e.read_3d_pixel(70, 40) & 0x7FFF, 0x001F);
}

#[test]
fn unmapped_video_memory_reads_zero() {
    let mut v = VramRouter::new();
    v.cpu_write_arm9(0x0680_0000, 9);
    assert_eq!(v.cpu_read_arm9(0x0680_0000), 0);
    v.write_cnt(BankId::A, 0x80);
    assert_eq!(v.read_cnt(BankId::A), 0x80);
    v.cpu_write_arm9(0x0680_0000, 9);
    v.cpu_write_arm9(0x0680_0001, 8);
    assert_eq!(v.read_lcdc_u16(0), 0x0809);
}

#[test]
fn engine_windows_read_halfwords() {
    let mut r = VramRouter::new();
    r.write_cnt(BankId::A, 0x80 | 1); // Engine A BG
    r.write_cnt(BankId::B, 0x80 | 2); // Engine A OBJ
    r.write_cnt(BankId::C, 0x80 | 4); // Engine B BG
    r.write_cnt(BankId::D, 0x80 | 4); // Engine B OBJ
    for (i, base) in [0x0600_0000u32, 0x0640_0000, 0x0620_0000, 0x0660_0000].iter().enumerate() {
        r.cpu_write_arm9(base + 0x10, 0x20 + i as u8);
        r.cpu_write_arm9(base + 0x11, 0x30 + i as u8);
    }
    assert_eq!(r.read_engine_a_bg_u16(0x11), 0x3020);
    assert_eq!(r.read_engine_a_obj(0x11), 0x31);
    assert_eq!(r.read_engine_a_obj_u16(0x10), 0x3121);
    assert_eq!(r.read_engine_b_bg_u16(0x10), 0x3222);
    assert_eq!(r.read_engine_b_obj_u16(0x10), 0x3323);
    assert_eq!(r.read_engine_b_obj_u16(0x12), 0);
}

#[test]
fn texture_palette_reads_its_slot() {
    let mut r = VramRouter::new();
    r.write_cnt(BankId::F, 0x80); // LCDC
    r.cpu_write_arm9(0x0689_0004, 0x5A);
    r.write_cnt(BankId::F, 0x80 | (1 << 3) | 3); // texture palette slot 1
    assert_eq!(r.read_texture_palette(0x4004), 0x5A);
    assert_eq!(r.read_texture_palette_u16(0x4005), 0x005A);
    assert_eq!(r.read_texture_palette(0x0004), 0);
}

#[test]
fn fifo_status_counts_words() {
    let mut f = GxFifo::new();
    assert_eq!(f.stat_high(), (1 << 9) | (1 << 10));
    f.set_irq_mode(2);
    f.write_direct(GxCmd::Color, 0x7FFF);
    let queued = f.stat_high();
    assert_eq!(queued & 0xC000, 0x8000);
    assert_eq!(queued & (1 << 10), 0);
    assert_eq!(queued & 0x1FF, 1);
}

#[test]
fn texture_palette_slots_of_f_and_g() {
    for (offset, slot) in [(0u8, 0u8), (1, 1), (2, 4), (3, 5)] {
        let cnt = 0x80 | (offset << 3) | 3;
        assert_eq!(decode_target(BankId::F, cnt), VramTarget::TexturePalette { slot });
        assert_eq!(decode_target(BankId::G, cnt), VramTarget::TexturePalette { slot });
    }
    // Banks E, F and G side by side fill six slots.
    let mut r = VramRouter::new();
    r.write_cnt(BankId::G, 0x80); // LCDC
    r.cpu_write_arm9(0x0689_4002, 0x77);
    r.write_cnt(BankId::E, 0x80 | 3);
    r.write_cnt(BankId::F, 0x80 | (2 << 3) | 3);
    r.write_cnt(BankId::G, 0x80 | (3 << 3) | 3);
    assert_eq!(r.read_texture_palette(5 * 0x4000 + 2), 0x77);
    assert_eq!(r.read_texture_palette(3 * 0x4000 + 2), 0);
}

#[test]
fn cascade_counts_every_overflow() {
    let mut t = Timers::new();
    t.write_reload(0, 0xFFFF);
    t.write_control(0, 0x80);
    t.write_control(1, 0x84);
    t.tick(3);
    assert_eq!(t.read_counter(1), 3);

    // Three timers in a row, at once and cycle by cycle.
    let mut once = Timers::new();
    once.write_reload(0, 0xFFFE);
    once.write_reload(1, 0xFFFD);
    once.write_control(0, 0x80);
    once.write_control(1, 0xC4);
    once.write_control(2, 0x84);
    let mut steps = once;
    let fired = once.tick(100).irqs[1];
    let mut fired_in_steps = false;
    for _ in 0..100 {
        fired_in_steps |= steps.tick(1).irqs[1];
    }
    assert_eq!(once.read_counter(2), 16); // 100 ticks, 50 overflows, 16 of these
    for id in 0..4 {
        assert_eq!(once.read_counter(id), steps.read_counter(id));
    }
    assert!(fired && fired_in_steps);
}

#[test]
fn low_battery_register_is_read_only() {
    let mut p = Pmic::new();
    p.xfer(0x04, true);
    assert_eq!(p.xfer(0x55, false), 0);
    p.reset();
    p.xfer(0x84, true);
    assert_eq!(p.xfer(0x00, false), 0);
    assert_eq!(p.regs[4], 0);
}

#[test]
fn texture_store_leaves_the_stack_pointer() {
    let mut s = MatrixStacks::new();
    s.set_mode(MtxMode::Texture);
    let stored = Matrix::identity().mul_translate(3 * ONE, 0, 0);
    s.load(stored);
    s.store(0);
    s.identity();
    s.restore(0);
    assert_eq!(s.texture, stored);
    assert!(!s.overflow);
    s.push();
    assert!(!s.overflow);
    s.push();
    assert!(s.overflow);
}
