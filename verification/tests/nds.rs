use nds_core::gpu3d::{Engine3d, GxCmd, MtxMode, FIFO_HALF, ScreenPolygon, ScreenVertex};
use nds_core::ipc::Side;
use nds_core::nds::{DmaTiming, Phase, TcmRegion};
use nds_core::vram::BankId;
use nds_core::{
    Action, CartLoadError, CpuId, EngineWhich, Event, EventKind, Irq, Nds, Outcome,
    CYCLES_PER_FRAME_ARM7, HBLANK_CYCLES_ARM7, HDRAW_CYCLES_ARM7, LINES_PER_FRAME, SCREEN_HEIGHT,
    SCREEN_WIDTH,
};

/// The work around the loop: instructions that take a cycle, an engine A that
/// paints one color, and DMA channels that copy.
struct Outside {
    picture: u16,
    irq_vector: bool,
    vblank_copy: Option<(usize, usize)>,
    sync_copy: Option<u32>,
    feed_from: Option<usize>,
    /// Draw engine A from the 3D scene or from the main-memory FIFO, as its
    /// display control says.
    drawn: bool,
    word: u32,
    pc9: u32,
    pc7: u32,
    log: Vec<Action>,
}

impl Outside {
    fn new() -> Outside {
        Outside {
            picture: 0,
            irq_vector: false,
            vblank_copy: None,
            sync_copy: None,
            feed_from: None,
            drawn: false,
            word: 0,
            pc9: 0,
            pc7: 0,
            log: Vec::new(),
        }
    }

    fn perform(&mut self, nds: &mut Nds, action: Action) -> Outcome {
        let mut outcome = Outcome::default();
        match action {
            Action::StepCpu { cpu } => {
                outcome.cycles = 1;
                match cpu {
                    CpuId::Arm9 => self.pc9 += 4,
                    CpuId::Arm7 => self.pc7 += 4,
                }
            }
            Action::CheckIrqVector => outcome.irq_vector = self.irq_vector,
            Action::RenderLine { engine: EngineWhich::A, line, upper, dispcnt } if self.drawn => {
                let at = line as usize * SCREEN_WIDTH;
                for x in 0..SCREEN_WIDTH {
                    let pixel = if (dispcnt >> 16) & 3 == 3 {
                        if x % 2 == 0 {
                            self.word = nds.shared.disp_mmem_fifo.pop_front().unwrap_or(0);
                            self.word as u16
                        } else {
                            (self.word >> 16) as u16
                        }
                    } else if dispcnt & (1 << 3) != 0 {
                        nds.shared.gpu3d.read_3d_pixel(x, line as usize) & 0x7FFF
                    } else {
                        0
                    };
                    let fb = if upper { &mut nds.framebuffer_top } else { &mut nds.framebuffer_bot };
                    fb[at + x] = pixel;
                }
            }
            Action::RenderLine { engine: EngineWhich::A, line, upper, .. } => {
                let at = line as usize * SCREEN_WIDTH;
                let fb = if upper { &mut nds.framebuffer_top } else { &mut nds.framebuffer_bot };
                for x in 0..SCREEN_WIDTH {
                    fb[at + x] = self.picture;
                }
            }
            Action::ChooseDma { cpu: CpuId::Arm9, timing: DmaTiming::VBlank } => {
                if self.vblank_copy.is_some() {
                    outcome.channels = 1;
                }
            }
            Action::ChooseDma { cpu: CpuId::Arm9, timing: DmaTiming::DisplaySync } => {
                if self.sync_copy.is_some() {
                    outcome.channels = 1;
                }
            }
            Action::RunDma { cpu: CpuId::Arm9, channel: 0 } => {
                if let Some((from, to)) = self.vblank_copy.take() {
                    for i in 0..4 {
                        nds.shared.main_ram[to + i] = nds.shared.main_ram[from + i];
                    }
                }
                if let Some(to) = self.sync_copy.take() {
                    for i in 0..4u32 {
                        let byte = nds.shared.main_ram[i as usize];
                        nds.shared.vram.cpu_write_arm9(to + i, byte);
                    }
                }
            }
            Action::RunDma { cpu: CpuId::Arm9, channel: 3 } => {
                if let Some(from) = self.feed_from {
                    for i in 0..4 {
                        let at = from + i * 4;
                        let ram = &nds.shared.main_ram;
                        let word = u32::from_le_bytes([ram[at], ram[at + 1], ram[at + 2], ram[at + 3]]);
                        nds.shared.disp_mmem_fifo.push_back(word);
                    }
                    self.feed_from = Some(from + 16);
                }
            }
            _ => {}
        }
        outcome
    }

    fn finish(&mut self, nds: &mut Nds) {
        let mut outcome = Outcome::default();
        loop {
            let action = nds.resume(outcome);
            if action == Action::Done {
                break;
            }
            if action != Action::Continue && self.log.len() < 64 {
                self.log.push(action);
            }
            outcome = self.perform(nds, action);
        }
    }
}

fn run_frame(nds: &mut Nds) {
    nds.run_frame();
    Outside::new().finish(nds);
}

fn halt_both(nds: &mut Nds) {
    nds.cpu9.halted = true;
    nds.cpu7.halted = true;
}

/// Write a word to a port of the geometry engine.
fn port(e: &mut Engine3d, addr: u32, word: u32) {
    if addr < 0x0400_0440 {
        e.fifo.write_packed(word);
    } else {
        let cmd = GxCmd::from_u8(((addr - 0x0400_0400) / 4) as u8).expect("command port");
        assert_eq!(cmd.direct_port_addr(), addr);
        e.fifo.write_direct(cmd, word);
    }
    e.drain_fifo();
}

fn red_triangle() -> ScreenPolygon {
    let corner = |x: i32, y: i32| ScreenVertex {
        screen_x: x << 8,
        screen_y: y << 8,
        depth_z: 0,
        w: 4096,
        color: 0x001F,
        tex: [0, 0],
    };
    ScreenPolygon {
        vertices: vec![corner(50, 50), corner(200, 50), corner(125, 150)],
        attr: (0x1F << 16) | (1 << 6) | (1 << 7), // opaque, render front/back
        tex_image_param: 0,
        palette_base: 0,
        front_area_negative: true,
    }
}

#[test]
fn test_lockstep_steps_both_cpus() {
    let mut nds = Nds::new(None, None);
    let mut outside = Outside::new();
    outside.pc9 = 0x0200_0000;
    outside.pc7 = 0x0200_0000;

    for _ in 0..4 {
        nds.step_one();
        outside.finish(&mut nds);
    }

    assert!(
        outside.pc9 >= 0x0200_0010,
        "ARM9 PC didn't advance: 0x{:08X}",
        outside.pc9
    );
    assert!(
        outside.pc7 >= 0x0200_0010,
        "ARM7 PC didn't advance: 0x{:08X}",
        outside.pc7
    );
}

#[test]
fn test_disp3dcnt_word_access_acknowledges_polygon_vertex_ram_overflow() {
    let mut nds = Nds::new(None, None);
    let gpu = &mut nds.shared.gpu3d;
    gpu.fifo.overflow = true;

    assert_eq!(gpu.read_disp3dcnt() as u32 & (1 << 13), 1 << 13);

    gpu.write_disp3dcnt((1u32 << 13) as u16);

    assert!(!gpu.fifo.overflow);
    assert_eq!(gpu.read_disp3dcnt() as u32 & (1 << 13), 0);
}

#[test]
fn test_main_memory_display_fifo_dma_feeds_scanline() {
    let mut nds = Nds::new(None, None);
    halt_both(&mut nds);
    nds.shared.powcnt1 = 1 << 15;
    nds.shared.engine_a.dispcnt = 3 << 16;
    for i in 0..128 {
        let lo: u32 = if i % 2 == 0 { 0x001F } else { 0x7C00 };
        let hi: u32 = if i % 2 == 0 { 0x03E0 } else { 0x001F };
        let word = lo | (hi << 16);
        nds.shared.main_ram[i * 4..i * 4 + 4].copy_from_slice(&word.to_le_bytes());
    }
    nds.shared.dma9_channel3.active = true;
    nds.shared.dma9_channel3.display_fifo = true;

    nds.run_frame();
    let mut outside = Outside::new();
    outside.drawn = true;
    outside.feed_from = Some(0);
    outside.finish(&mut nds);

    assert_eq!(nds.framebuffer_top[0], 0x001F);
    assert_eq!(nds.framebuffer_top[1], 0x03E0);
    assert_eq!(nds.framebuffer_top[2], 0x7C00);
    assert_eq!(nds.framebuffer_top[3], 0x001F);
}

#[test]
fn test_3d_rasterized_triangle_lands_on_top_framebuffer() {
    let mut nds = Nds::new(None, None);
    nds.shared.powcnt1 = 1 << 15;
    nds.shared.engine_a.dispcnt = 0x0001_0108; // mode=0, bg0_3d=1, bg0_en=1, dispmode=1
    nds.shared.gpu3d.rasterizer.disp3dcnt = 0x0001;
    nds.shared.gpu3d.geometry_polygons.push(red_triangle());
    nds.shared.gpu3d.swap_pending = true;
    nds.shared.gpu3d.swap_buffers(None);

    halt_both(&mut nds);
    nds.run_frame();
    let mut outside = Outside::new();
    outside.drawn = true;
    outside.finish(&mut nds);

    let center_idx = 100 * SCREEN_WIDTH + 125;
    let c = nds.framebuffer_top[center_idx];
    let r = c & 0x1F;
    assert!(
        r >= 30,
        "top framebuffer center should be red, got 0x{:04X} (r={})",
        c,
        r
    );

    // A pixel far outside the triangle should be backdrop (black).
    let outside_idx = 10 * SCREEN_WIDTH + 10;
    assert_eq!(
        nds.framebuffer_top[outside_idx] & 0x7FFF,
        0,
        "top framebuffer corner should be backdrop black"
    );
}

#[test]
fn test_3d_disabled_when_bg0_3d_clear() {
    let mut nds = Nds::new(None, None);
    nds.shared.powcnt1 = 1 << 15;
    // Engine A: BG0 enabled but BG0_3D not set.
    nds.shared.engine_a.dispcnt = 0x0001_0100;
    nds.shared.gpu3d.rasterizer.disp3dcnt = 0x0001;
    nds.shared.gpu3d.geometry_polygons.push(red_triangle());
    nds.shared.gpu3d.swap_pending = true;
    nds.shared.gpu3d.swap_buffers(None);

    halt_both(&mut nds);
    nds.run_frame();
    let mut outside = Outside::new();
    outside.drawn = true;
    outside.finish(&mut nds);

    let center_idx = 100 * SCREEN_WIDTH + 125;
    let c = nds.framebuffer_top[center_idx];
    let r = c & 0x1F;
    assert!(
        r < 5,
        "BG0_3D disabled: should not see 3D pixels in framebuffer; got 0x{:04X}",
        c
    );
}

#[test]
fn test_direct_boot_arm9_irq_without_handler_is_acked() {
    let mut nds = Nds::new(None, None);
    nds.direct_boot = true;
    nds.cpu7.halted = true;
    nds.cpu9.dtcm = TcmRegion { base: 0x0B00_0000, size_bytes: 16 * 1024 };
    nds.shared.irq9.write_ie(Irq::VBlank.bit());
    nds.shared.irq9.write_ime(1);
    nds.shared.irq9.request(Irq::VBlank);

    nds.step_one();
    Outside::new().finish(&mut nds);

    assert_eq!(nds.shared.irq9.iflag & Irq::VBlank.bit(), 0);
    let shadow_off = nds.cpu9.dtcm.size_bytes as usize - 8;
    let shadow = u32::from_le_bytes([
        nds.mem9.dtcm[shadow_off],
        nds.mem9.dtcm[shadow_off + 1],
        nds.mem9.dtcm[shadow_off + 2],
        nds.mem9.dtcm[shadow_off + 3],
    ]);
    assert_eq!(shadow & Irq::VBlank.bit(), Irq::VBlank.bit());
}

#[test]
fn test_direct_boot_arm9_irq_with_itcm_vector_is_not_acked_by_fallback() {
    let mut nds = Nds::new(None, None);
    nds.direct_boot = true;
    nds.cpu7.halted = true;
    nds.shared.irq9.write_ie(Irq::IpcSync.bit());
    nds.shared.irq9.write_ime(1);
    nds.shared.irq9.request(Irq::IpcSync);

    nds.step_one();
    let mut outside = Outside::new();
    outside.irq_vector = true;
    outside.finish(&mut nds);

    assert_ne!(nds.shared.irq9.iflag & Irq::IpcSync.bit(), 0);
}

#[test]
fn installed_handler_keeps_interrupt_pending() {
    let mut nds = Nds::new(None, None);
    nds.direct_boot = true;
    nds.shared.main_ram[0x3F_3FFC] = 1;
    nds.shared.irq9.write_ie(1);
    nds.shared.irq9.write_ime(1);
    nds.shared.irq9.request(Irq::VBlank);
    nds.step_one();
    Outside::new().finish(&mut nds);
    assert_eq!(nds.shared.irq9.iflag, 1);
}

/// After a frame with VBlank enabled in DISPSTAT and IE, both CPUs' IF have the
/// VBlank bit set.
#[test]
fn test_vblank_irq_fires_on_both_cpus() {
    let mut nds = Nds::new(None, None);
    nds.shared.dispstat9 = 0x0008;
    nds.shared.dispstat7 = 0x0008;
    nds.shared.irq9.write_ie(Irq::VBlank.bit());
    nds.shared.irq7.write_ie(Irq::VBlank.bit());

    run_frame(&mut nds);

    assert!(
        nds.shared.irq9.read_if() & Irq::VBlank.bit() != 0,
        "ARM9 IF should have VBlank set"
    );
    assert!(
        nds.shared.irq7.read_if() & Irq::VBlank.bit() != 0,
        "ARM7 IF should have VBlank set"
    );
}

#[test]
fn test_vcount_advances_through_full_frame() {
    let mut nds = Nds::new(None, None);
    halt_both(&mut nds);
    run_frame(&mut nds);
    assert_eq!(nds.shared.vcount, 0);
}

/// A halted CPU wakes on an enabled interrupt even with IME off.
#[test]
fn test_halt_wake_on_unmasked_vblank_irq() {
    let mut nds = Nds::new(None, None);
    nds.shared.dispstat9 = 0x0008;
    nds.shared.dispstat7 = 0x0008;
    nds.shared.irq9.write_ie(Irq::VBlank.bit());
    nds.shared.irq7.write_ie(Irq::VBlank.bit());
    nds.shared.irq9.write_ime(0);
    nds.shared.irq7.write_ime(0);
    halt_both(&mut nds);

    run_frame(&mut nds);

    assert!(
        nds.shared.irq9.read_if() & Irq::VBlank.bit() != 0,
        "ARM9 IF should have VBlank pending"
    );
    assert!(
        nds.shared.irq7.read_if() & Irq::VBlank.bit() != 0,
        "ARM7 IF should have VBlank pending"
    );
    assert!(!nds.cpu9.halted, "ARM9 should be woken: IE & IF != 0 even with IME=0");
    assert!(!nds.cpu7.halted, "ARM7 should be woken: IE & IF != 0 even with IME=0");
}

/// Without an enabled interrupt a halted CPU sleeps on.
#[test]
fn test_halt_stays_halted_when_no_irq_enabled() {
    let mut nds = Nds::new(None, None);
    halt_both(&mut nds);
    run_frame(&mut nds);
    assert!(nds.cpu9.halted, "ARM9 should remain halted (no IRQ enabled)");
    assert!(nds.cpu7.halted, "ARM7 should remain halted (no IRQ enabled)");
}

#[test]
fn test_arm7_haltcnt_write_halts_until_enabled_irq() {
    let mut nds = Nds::new(None, None);
    nds.shared.halt7_requested = true;

    nds.step_one();
    Outside::new().finish(&mut nds);

    assert!(nds.cpu7.halted, "HALTCNT bit 7 should park ARM7");
    assert!(!nds.shared.halt7_requested);
}

/// A CPU that waits for VBlank sleeps through an HBlank interrupt.
#[test]
fn test_intrwait_mask_blocks_non_matching_irq() {
    let mut nds = Nds::new(None, None);
    nds.shared.dispstat9 = 0x0018; // VBlank + HBlank enabled
    nds.shared.irq9.write_ie(Irq::VBlank.bit() | Irq::HBlank.bit());
    nds.cpu9.halted = true;
    nds.cpu9.intrwait_mask = Irq::VBlank.bit();
    nds.shared.irq9.request(Irq::HBlank);

    nds.run_cycles(100);
    Outside::new().finish(&mut nds);

    assert!(
        nds.cpu9.halted,
        "ARM9 should stay halted: HBlank fired but mask only matches VBlank"
    );
    assert_eq!(
        nds.cpu9.intrwait_mask,
        Irq::VBlank.bit(),
        "Mask should remain set while waiting"
    );
}

#[test]
fn test_intrwait_mask_wakes_on_matching_irq() {
    let mut nds = Nds::new(None, None);
    nds.shared.dispstat9 = 0x0008; // VBlank IRQ enabled
    nds.shared.irq9.write_ie(Irq::VBlank.bit());
    nds.cpu9.halted = true;
    nds.cpu9.intrwait_mask = Irq::VBlank.bit();
    nds.shared.irq9.request(Irq::VBlank);

    nds.run_cycles(100);
    Outside::new().finish(&mut nds);

    assert!(!nds.cpu9.halted, "ARM9 should wake: VBlank matches the IntrWait mask");
    assert_eq!(
        nds.cpu9.intrwait_mask, 0,
        "Mask should clear on wake so future HALTCNT halts aren't gated"
    );
}

#[test]
fn test_io_register_round_trip_arm9_ie() {
    let mut nds = Nds::new(None, None);
    nds.shared.irq9.write_ie(0xDEAD_BEEF);
    assert_eq!(nds.shared.irq9.read_ie(), 0xDEAD_BEEF);
}

#[test]
fn test_disp3dcnt_write_ignores_status_and_unused_bits() {
    let mut nds = Nds::new(None, None);
    nds.shared.gpu3d.write_disp3dcnt(0xFFFF);
    assert_eq!(nds.shared.gpu3d.rasterizer.disp3dcnt, 0x4FFF);
}

#[test]
fn test_disp3dcnt_reports_and_acknowledges_polygon_vertex_ram_overflow() {
    let mut nds = Nds::new(None, None);
    let gpu = &mut nds.shared.gpu3d;
    gpu.fifo.overflow = true;

    assert_eq!(gpu.read_disp3dcnt() & (1 << 13), 1 << 13);

    gpu.write_disp3dcnt(1 << 13);

    assert!(!gpu.fifo.overflow);
    assert_eq!(gpu.read_disp3dcnt() & (1 << 13), 0);
    assert_eq!(gpu.rasterizer.disp3dcnt & (1 << 13), 0);
}

#[test]
fn test_io_register_per_cpu_isolation() {
    let mut nds = Nds::new(None, None);
    nds.shared.irq9.write_ie(0x0000_0001);
    assert_eq!(
        nds.shared.irq7.read_ie(),
        0,
        "ARM7's IE register should be independent of ARM9's"
    );
}

#[test]
fn test_display_capture_source_a_writes_engine_a_line_to_lcdc_vram() {
    let mut nds = Nds::new(None, None);
    let red = 0x001F;
    halt_both(&mut nds);
    // Capture destination block 1 = VRAM B.
    nds.shared.vram.write_cnt(BankId::B, 0x80);
    nds.shared.dispcapcnt = (1 << 31) | (1 << 16) | (3 << 20);
    nds.shared.dispcap_pending = true;

    nds.run_frame();
    let mut outside = Outside::new();
    outside.picture = red;
    outside.finish(&mut nds);

    assert_eq!(nds.shared.vram.read_lcdc_u16(0x2_0000), red | (1 << 15));
    assert_eq!(nds.shared.dispcapcnt & (1 << 31), 0);
    assert!(!nds.shared.dispcap_active);
    assert!(!nds.shared.dispcap_pending);
}

#[test]
fn test_display_capture_source_b_consumes_main_memory_fifo() {
    let mut nds = Nds::new(None, None);
    halt_both(&mut nds);
    nds.shared.vram.write_cnt(BankId::B, 0x80);
    for _ in 0..128 {
        nds.shared.disp_mmem_fifo.push_back(0x03E0_001F);
    }
    nds.shared.dispcapcnt = (1 << 31) | (1 << 25) | (1 << 29) | (1 << 16) | (3 << 20);
    nds.shared.dispcap_pending = true;

    run_frame(&mut nds);

    assert_eq!(nds.shared.vram.read_lcdc_u16(0x2_0000), 0x8000 | 0x001F);
    assert_eq!(nds.shared.vram.read_lcdc_u16(0x2_0002), 0x8000 | 0x03E0);
}

#[test]
fn test_display_capture_source_b_dma_feeds_main_memory_fifo() {
    let mut nds = Nds::new(None, None);
    halt_both(&mut nds);
    nds.shared.vram.write_cnt(BankId::B, 0x80);
    for i in 0..128 {
        let lo: u32 = if i % 2 == 0 { 0x001F } else { 0x7C00 };
        let hi: u32 = if i % 2 == 0 { 0x03E0 } else { 0x001F };
        let word = lo | (hi << 16);
        nds.shared.main_ram[i * 4..i * 4 + 4].copy_from_slice(&word.to_le_bytes());
    }
    nds.shared.dma9_channel3.active = true;
    nds.shared.dma9_channel3.display_fifo = true;
    nds.shared.dispcapcnt = (1 << 31) | (1 << 25) | (1 << 29) | (1 << 16) | (3 << 20);
    nds.shared.dispcap_pending = true;

    nds.run_frame();
    let mut outside = Outside::new();
    outside.feed_from = Some(0);
    outside.finish(&mut nds);

    assert_eq!(nds.shared.vram.read_lcdc_u16(0x2_0000), 0x8000 | 0x001F);
    assert_eq!(nds.shared.vram.read_lcdc_u16(0x2_0002), 0x8000 | 0x03E0);
    assert_eq!(nds.shared.vram.read_lcdc_u16(0x2_0004), 0x8000 | 0x7C00);
    assert_eq!(nds.shared.vram.read_lcdc_u16(0x2_0006), 0x8000 | 0x001F);
}

#[test]
fn test_display_capture_write_offset_wraps_within_vram_block() {
    let mut nds = Nds::new(None, None);
    let red = 0x001F;
    halt_both(&mut nds);
    nds.shared.vram.write_cnt(BankId::B, 0x80);
    nds.shared.dispcapcnt = (1 << 31) | (1 << 16) | (3 << 18) | (3 << 20);
    nds.shared.dispcap_pending = true;

    nds.run_frame();
    let mut outside = Outside::new();
    outside.picture = red;
    outside.finish(&mut nds);

    assert_eq!(
        nds.shared.vram.read_lcdc_u16(0x2_0000),
        red | (1 << 15),
        "full-height capture at offset 0x18000 should wrap within VRAM B"
    );
}

#[test]
fn test_display_capture_source_b_vram_read_offset_wraps_within_block() {
    let mut nds = Nds::new(None, None);
    halt_both(&mut nds);
    nds.shared.vram.write_cnt(BankId::A, 0x80);
    nds.shared.vram.write_cnt(BankId::B, 0x80);
    nds.shared.engine_a.dispcnt = 0; // VRAM read block 0 = A.
    nds.shared.vram.cpu_write_arm9(0x0680_0000, 0x1F);
    nds.shared.vram.cpu_write_arm9(0x0680_0001, 0x80);
    nds.shared.dispcapcnt = (1 << 31) | (1 << 16) | (3 << 20) | (3 << 26) | (1 << 29);
    nds.shared.dispcap_pending = true;

    run_frame(&mut nds);

    assert_eq!(
        nds.shared.vram.read_lcdc_u16(0x2_8000),
        0x8000 | 0x001F,
        "source-B VRAM read offset 0x18000 should wrap to block start"
    );
}

#[test]
fn test_display_capture_vram_display_mode_ignores_source_b_read_offset() {
    let mut nds = Nds::new(None, None);
    halt_both(&mut nds);
    nds.shared.vram.write_cnt(BankId::A, 0x80);
    nds.shared.vram.write_cnt(BankId::B, 0x80);
    nds.shared.engine_a.dispcnt = 2 << 16; // VRAM display mode, read block 0.
    nds.shared.vram.cpu_write_arm9(0x0680_0000, 0x1F);
    nds.shared.vram.cpu_write_arm9(0x0680_0001, 0x80);
    nds.shared.vram.cpu_write_arm9(0x0681_8000, 0x00);
    nds.shared.vram.cpu_write_arm9(0x0681_8001, 0xFC);
    nds.shared.dispcapcnt = (1 << 31) | (1 << 16) | (3 << 20) | (3 << 26) | (1 << 29);
    nds.shared.dispcap_pending = true;

    run_frame(&mut nds);

    assert_eq!(
        nds.shared.vram.read_lcdc_u16(0x2_0000),
        0x8000 | 0x001F,
        "VRAM display mode should ignore DISPCAPCNT source-B read offset"
    );
}

#[test]
fn test_display_capture_blends_source_a_and_fifo_source_b() {
    let mut nds = Nds::new(None, None);
    let red = 0x001F;
    halt_both(&mut nds);
    nds.shared.vram.write_cnt(BankId::B, 0x80);
    for _ in 0..128 {
        nds.shared.disp_mmem_fifo.push_back(0x03E0_03E0);
    }
    nds.shared.dispcapcnt =
        (1 << 31) | 8 | (8 << 8) | (1 << 16) | (3 << 20) | (1 << 25) | (2 << 29);
    nds.shared.dispcap_pending = true;

    nds.run_frame();
    let mut outside = Outside::new();
    outside.picture = red;
    outside.finish(&mut nds);

    assert_eq!(nds.shared.vram.read_lcdc_u16(0x2_0000), 0x8000 | (15 << 5) | 15);
}

#[test]
fn test_powcnt_bit15_routes_display_a_between_screens() {
    let red = 0x001F;
    let mut nds = Nds::new(None, None);
    halt_both(&mut nds);
    nds.run_frame();
    let mut outside = Outside::new();
    outside.picture = red;
    outside.finish(&mut nds);

    // POWCNT1 bit 15 clear sends Display A/Engine A to the lower screen.
    assert_eq!(nds.framebuffer_bot[0], red);
    assert_eq!(nds.framebuffer_top[0], 0);

    let mut nds = Nds::new(None, None);
    nds.shared.powcnt1 = 1 << 15;
    halt_both(&mut nds);
    nds.run_frame();
    let mut outside = Outside::new();
    outside.picture = red;
    outside.finish(&mut nds);

    // POWCNT1 bit 15 set sends Display A/Engine A to the upper screen.
    assert_eq!(nds.framebuffer_top[0], red);
    assert_eq!(nds.framebuffer_bot[0], 0);
    assert_eq!(nds.framebuffer_top[SCREEN_HEIGHT * SCREEN_WIDTH - 1], red);
}

#[test]
fn test_ipc_fifo_arm9_to_arm7_round_trip() {
    let mut nds = Nds::new(None, None);
    nds.shared.ipc.write_fifocnt(Side::Arm9, 1 << 15);
    nds.shared.ipc.write_fifocnt(Side::Arm7, 1 << 15);

    let payload = [0xCAFE_BABE, 0xDEAD_BEEF, 0x1111_2222, 0xABCD_0123];
    for w in payload {
        nds.shared.ipc.write_send(Side::Arm9, w);
    }
    for w in payload {
        assert_eq!(nds.shared.ipc.read_recv(Side::Arm7).0, w);
    }
}

#[test]
fn test_ipc_sync_trigger_raises_irq_on_other_cpu() {
    let mut nds = Nds::new(None, None);
    nds.shared.ipc.write_sync(Side::Arm7, 1 << 14);
    nds.shared.irq7.write_ie(Irq::IpcSync.bit());

    if nds.shared.ipc.write_sync(Side::Arm9, (0xA << 8) | (1 << 13)) {
        nds_core::ipc::raise_ipc_sync(&mut nds.shared.irq7);
    }

    assert!(
        nds.shared.irq7.read_if() & Irq::IpcSync.bit() != 0,
        "ARM7's IF should have IpcSync set"
    );
    assert_eq!(nds.shared.irq9.read_if() & Irq::IpcSync.bit(), 0);
}

#[test]
fn test_dma9_vblank_fires_at_line_192() {
    let mut nds = Nds::new(None, None);
    nds.shared.main_ram[0..4].copy_from_slice(&0xCAFE_BABEu32.to_le_bytes());
    halt_both(&mut nds);
    nds.run_frame();
    let mut outside = Outside::new();
    outside.vblank_copy = Some((0, 0x2000));
    outside.finish(&mut nds);

    let v = u32::from_le_bytes([
        nds.shared.main_ram[0x2000],
        nds.shared.main_ram[0x2001],
        nds.shared.main_ram[0x2002],
        nds.shared.main_ram[0x2003],
    ]);
    assert_eq!(v, 0xCAFE_BABE);
}

#[test]
fn test_dma9_display_sync_fires_at_hdraw_line_2() {
    let mut nds = Nds::new(None, None);
    nds.shared.main_ram[0..4].copy_from_slice(&0x1234_5678u32.to_le_bytes());
    nds.shared.vram.write_cnt(BankId::A, 0x80 | 1);
    let mut outside = Outside::new();
    outside.sync_copy = Some(0x0600_0100);

    nds.shared.vcount = 0;
    nds.dispatch_event(Event {
        fire_time: nds.scheduler.timestamp(),
        kind: EventKind::HBlankEnd,
    });
    outside.finish(&mut nds);
    assert_eq!(nds.shared.vram.cpu_read_arm9(0x0600_0100), 0);
    assert!(outside.sync_copy.is_some());

    nds.dispatch_event(Event {
        fire_time: nds.scheduler.timestamp(),
        kind: EventKind::HBlankEnd,
    });
    outside.finish(&mut nds);
    let v = u32::from_le_bytes([
        nds.shared.vram.cpu_read_arm9(0x0600_0100),
        nds.shared.vram.cpu_read_arm9(0x0600_0101),
        nds.shared.vram.cpu_read_arm9(0x0600_0102),
        nds.shared.vram.cpu_read_arm9(0x0600_0103),
    ]);
    assert_eq!(v, 0x1234_5678);
    assert!(outside.sync_copy.is_none());
}

#[test]
fn test_timer0_overflow_irq() {
    let mut nds = Nds::new(None, None);
    nds.shared.timers9.write_reload(0, 0xFFFE);
    nds.shared.timers9.write_control(0, (1 << 7) | (1 << 6));
    halt_both(&mut nds);
    run_frame(&mut nds);
    assert!(
        nds.shared.irq9.read_if() & Irq::Timer0.bit() != 0,
        "Timer0 IRQ should have fired, IF = 0x{:08X}",
        nds.shared.irq9.read_if()
    );
}

#[test]
fn test_3d_pipeline_via_arm9_io_writes() {
    let mut nds = Nds::new(None, None);
    {
        let gpu = &mut nds.shared.gpu3d;
        port(gpu, 0x0400_04A4, (1 << 13) | (0x1F << 16) | (1 << 6) | (1 << 7));
        port(gpu, 0x0400_0500, 0);
        let z_half = 0x800u32;
        for _ in 0..3 {
            port(gpu, 0x0400_048C, 0);
            port(gpu, 0x0400_048C, z_half);
        }
        port(gpu, 0x0400_0540, 0);
    }

    assert_eq!(
        nds.shared.gpu3d.geometry_polygons.len(),
        1,
        "one triangle should have landed in geometry buffer"
    );
    assert!(nds.shared.gpu3d.swap_pending);

    // A frame later the buffers are swapped.
    halt_both(&mut nds);
    run_frame(&mut nds);
    assert!(!nds.shared.gpu3d.swap_pending);
    assert_eq!(nds.shared.gpu3d.raster_polygons.len(), 1);
    assert!(nds.shared.gpu3d.geometry_polygons.is_empty());
}

#[test]
fn test_end_vtxs_direct_port_is_noop_via_arm9_io() {
    let mut nds = Nds::new(None, None);
    let gpu = &mut nds.shared.gpu3d;

    port(gpu, 0x0400_04A4, (1 << 13) | (0x1F << 16) | (1 << 6) | (1 << 7));
    port(gpu, 0x0400_0500, 0); // BEGIN_VTXS triangles
    port(gpu, 0x0400_048C, 0); // first VTX_16
    port(gpu, 0x0400_048C, 0x800);

    port(gpu, 0x0400_0504, 0); // END_VTXS is a hardware no-op.

    for _ in 0..2 {
        port(gpu, 0x0400_048C, 0);
        port(gpu, 0x0400_048C, 0x800);
    }

    assert_eq!(gpu.geometry_polygons.len(), 1);
    assert!(gpu.vertex.list_active);
}

#[test]
fn test_begin_vtxs_direct_port_restarts_partial_list_via_arm9_io() {
    let mut nds = Nds::new(None, None);
    let gpu = &mut nds.shared.gpu3d;

    port(gpu, 0x0400_04A4, (1 << 13) | (0x1F << 16) | (1 << 6) | (1 << 7));
    port(gpu, 0x0400_0500, 0); // BEGIN_VTXS triangles
    for _ in 0..2 {
        port(gpu, 0x0400_048C, 0);
        port(gpu, 0x0400_048C, 0x800);
    }

    port(gpu, 0x0400_0500, 0); // New BEGIN_VTXS discards the partial list.
    for _ in 0..3 {
        port(gpu, 0x0400_048C, 0);
        port(gpu, 0x0400_048C, 0x800);
    }

    assert_eq!(gpu.geometry_polygons.len(), 1);
    assert!(gpu.vertex.vertex_buffer.is_empty());
}

#[test]
fn test_out_of_list_vtx_does_not_seed_inherited_position_via_io() {
    let mut nds = Nds::new(None, None);
    let gpu = &mut nds.shared.gpu3d;

    port(gpu, 0x0400_048C, (7u32 << 12) | ((7u32 << 12) << 16));
    port(gpu, 0x0400_048C, 7u32 << 12);
    assert_eq!(gpu.vertex.last_pos, [0, 0, 0]);

    port(gpu, 0x0400_0500, 0); // BEGIN_VTXS triangles
    port(gpu, 0x0400_0494, 0); // VTX_XY inherits Z from last_pos

    assert_eq!(gpu.vertex.last_pos, [0, 0, 0]);
    assert_eq!(gpu.vertex.vertex_buffer[0].clip[2], 0);
}

#[test]
fn test_gxfifo_packed_port_mirror_accepts_commands() {
    let mut nds = Nds::new(None, None);
    port(&mut nds.shared.gpu3d, 0x0400_0404, 0x0000_0010); // MTX_MODE via GXFIFO mirror.
    port(&mut nds.shared.gpu3d, 0x0400_0404, 1);
    assert!(matches!(nds.shared.gpu3d.stacks.mode, MtxMode::Position));
}

#[test]
fn test_vblank_swap_drain_triggers_gxfifo_dma() {
    let mut nds = Nds::new(None, None);
    nds.shared.gpu3d.swap_pending = true;

    // While SWAP_BUFFERS is pending, geometry commands queue but do not
    // drain. 32 packed MTX_PUSH words produce exactly 128 FIFO entries.
    for _ in 0..32 {
        port(&mut nds.shared.gpu3d, 0x0400_0400, 0x1111_1111);
    }
    assert_eq!(nds.shared.gpu3d.fifo.len(), FIFO_HALF);

    nds.shared.vcount = LINES_PER_FRAME - 1;
    nds.dispatch_event(Event {
        fire_time: nds.scheduler.timestamp(),
        kind: EventKind::HBlankEnd,
    });
    let mut outside = Outside::new();
    outside.finish(&mut nds);

    assert_eq!(outside.log, vec![Action::LatchAffine, Action::RunGxFifoDma]);
    assert!(nds.shared.gpu3d.fifo.is_empty());
}

#[test]
fn test_gxstat_low_reflects_idle_geometry_at_boot() {
    let nds = Nds::new(None, None);
    assert_eq!(nds.shared.gpu3d.gxstat_low(), 0);
}

#[test]
fn test_gxstat_high_exposes_real_fifo_status_bits() {
    let nds = Nds::new(None, None);
    let stat = nds.shared.gpu3d.gxstat();
    assert_ne!(stat & (1 << 25), 0, "FIFO less-than-half bit");
    assert_ne!(stat & (1 << 26), 0, "FIFO empty bit");
}

#[test]
fn test_gxstat_less_than_half_irq_requests_gxfifo_irq() {
    let mut nds = Nds::new(None, None);
    nds.shared.gpu3d.write_gxstat(1 << 30);
    assert_eq!(nds.shared.gpu3d.gxstat() & (3 << 30), 1 << 30);
    nds.shared.refresh_level_irqs();
    assert_ne!(nds.shared.irq9.read_if() & Irq::GxFifo.bit(), 0);
}

#[test]
fn test_gxstat_low_halfword_write_does_not_clear_fifo_irq_mode() {
    let mut nds = Nds::new(None, None);
    let gpu = &mut nds.shared.gpu3d;
    gpu.write_gxstat_high(2 << 14);
    gpu.stacks.overflow = true;

    gpu.write_gxstat_low(1 << 15);

    assert_eq!(gpu.fifo.irq_mode, 2);
    assert!(!gpu.stacks.overflow);
    assert_eq!(gpu.gxstat() & (3 << 30), 2 << 30);
}

#[test]
fn test_gx_ram_count_reports_geometry_buffer() {
    let mut nds = Nds::new(None, None);
    let corner = |x: i32, y: i32| ScreenVertex {
        screen_x: x,
        screen_y: y,
        depth_z: 0,
        w: 4096,
        color: 0,
        tex: [0, 0],
    };
    nds.shared.gpu3d.geometry_polygons.push(ScreenPolygon {
        vertices: vec![corner(0, 0), corner(1, 0), corner(0, 1)],
        attr: (0x1F << 16) | (1 << 6) | (1 << 7),
        tex_image_param: 0,
        palette_base: 0,
        front_area_negative: true,
    });

    let count = nds.shared.gpu3d.ram_count();

    assert_eq!(count & 0x0FFF, 1);
    assert_eq!((count >> 16) & 0x1FFF, 3);
}

#[test]
fn test_gx_readable_clip_matrix_exposes_current_transform() {
    let mut nds = Nds::new(None, None);
    let gpu = &mut nds.shared.gpu3d;

    port(gpu, 0x0400_0440, 1); // MTX_MODE position
    port(gpu, 0x0400_0470, 2 << 12);
    port(gpu, 0x0400_0470, 3 << 12);
    port(gpu, 0x0400_0470, 4 << 12);

    assert_eq!(gpu.read_clip_matrix_word(12), 2u32 << 12);
    assert_eq!(gpu.read_clip_matrix_word(13), 3u32 << 12);
    assert_eq!(gpu.read_clip_matrix_word(14), 4u32 << 12);
}

#[test]
fn test_pos_test_writes_result_registers() {
    let mut nds = Nds::new(None, None);
    let gpu = &mut nds.shared.gpu3d;

    port(gpu, 0x0400_05C4, (2u32 << 12) | ((3u32 << 12) << 16));
    port(gpu, 0x0400_05C4, 4u32 << 12);

    assert_eq!(gpu.read_pos_test_word(0), 2u32 << 12);
    assert_eq!(gpu.read_pos_test_word(1), 3u32 << 12);
    assert_eq!(gpu.read_pos_test_word(2), 4u32 << 12);
    assert_eq!(gpu.read_pos_test_word(3), 1u32 << 12);
}

#[test]
fn test_pos_test_seeds_inherited_vertex_position_components() {
    let mut nds = Nds::new(None, None);
    let gpu = &mut nds.shared.gpu3d;

    port(gpu, 0x0400_05C4, (2u32 << 12) | ((3u32 << 12) << 16));
    port(gpu, 0x0400_05C4, 4u32 << 12);

    port(gpu, 0x0400_0500, 0); // BEGIN_VTXS triangles
    port(gpu, 0x0400_0494, (5u32 << 12) | ((6u32 << 12) << 16)); // VTX_XY

    assert_eq!(gpu.vertex.last_pos, [5 << 12, 6 << 12, 4 << 12]);
    assert_eq!(gpu.vertex.vertex_buffer[0].clip[0], 5 << 12);
    assert_eq!(gpu.vertex.vertex_buffer[0].clip[1], 6 << 12);
    assert_eq!(gpu.vertex.vertex_buffer[0].clip[2], 4 << 12);
}

#[test]
fn test_vec_test_writes_direction_result_registers() {
    let mut nds = Nds::new(None, None);
    let gpu = &mut nds.shared.gpu3d;

    port(gpu, 0x0400_0440, 2); // MTX_MODE position+vector
    port(gpu, 0x0400_05C8, 1);

    assert_eq!(gpu.read_vec_test_halfword(0), 8);
    assert_eq!(gpu.read_vec_test_halfword(1), 0);
    assert_eq!(gpu.read_vec_test_halfword(2), 0);
}

#[test]
fn test_vec_test_result_registers_support_word_reads() {
    let mut nds = Nds::new(None, None);
    let gpu = &mut nds.shared.gpu3d;

    port(gpu, 0x0400_0440, 2); // MTX_MODE position+vector
    port(gpu, 0x0400_05C8, 1 | (2 << 10) | (3 << 20));

    let word = |lo: u16, hi: u16| lo as u32 | ((hi as u32) << 16);
    assert_eq!(
        word(gpu.read_vec_test_halfword(0), gpu.read_vec_test_halfword(1)),
        0x0010_0008
    );
    assert_eq!(gpu.read_vec_test_halfword(2) as u32, 0x0000_0018);
}

#[test]
fn test_box_test_sets_gxstat_visible_bit() {
    let mut nds = Nds::new(None, None);
    let gpu = &mut nds.shared.gpu3d;

    port(gpu, 0x0400_05C0, 0);
    port(gpu, 0x0400_05C0, 0);
    port(gpu, 0x0400_05C0, 0);

    assert_ne!(gpu.gxstat_low() & (1 << 1), 0);
    assert_eq!(gpu.gxstat_low() & 1, 0, "test busy should clear immediately");
}

#[test]
fn test_set_touch_drives_tsc_and_extkeyin() {
    let mut nds = Nds::new(None, None);
    nds.set_touch(128, 96, true);
    // EXTKEYIN bit 6 = 0 when pen down (active-low).
    assert_eq!(nds.shared.extkeyin & (1 << 6), 0);
    // A conversion of X by the touchscreen controller over the SPI bus.
    let bus = &mut nds.shared.spi;
    let cnt_hold = (1 << 15) | (2 << 8) | (1 << 11);
    let cnt_drop = (1 << 15) | (2 << 8);
    bus.cnt = cnt_hold;
    let _ = bus.write_data(0x80 | (5 << 4)); // control byte
    bus.cnt = cnt_hold;
    let _ = bus.write_data(0);
    let hi = bus.read_data();
    bus.cnt = cnt_drop;
    let _ = bus.write_data(0);
    let lo = bus.read_data();
    let adc = ((hi as u16) << 5) | ((lo as u16) >> 3);
    assert!(
        (0x07E0..=0x0820).contains(&adc),
        "TSC X ADC {:#06X} should be near 0x0800",
        adc
    );

    nds.set_touch(0, 0, false);
    assert_eq!(nds.shared.extkeyin & (1 << 6), 1 << 6);
}

#[test]
fn test_firmware_nickname_via_spi_io() {
    let mut nds = Nds::new(None, None);
    let spi = &mut nds.shared.spi;
    spi.write_cnt((1 << 15) | (1 << 8));
    let cnt_hold = (1 << 15) | (1 << 8) | (1 << 11);
    spi.write_cnt(cnt_hold);
    spi.write_data(0x03); // READ
    spi.write_data(0x03); // addr [23:16]
    spi.write_data(0xFE); // addr [15:8]
    spi.write_data(0x06); // addr [7:0]
    spi.write_data(0);
    let n = spi.read_data();
    spi.write_data(0);
    let _hi = spi.read_data();
    spi.write_data(0);
    let d = spi.read_data();
    // Final byte: release hold.
    spi.write_cnt((1 << 15) | (1 << 8));
    spi.write_data(0);
    let _s_hi = spi.read_data();

    assert_eq!(n, b'N');
    assert_eq!(d, b'D');
}

#[test]
fn test_keypad_irq_or_mode() {
    let mut nds = Nds::new(None, None);
    nds.shared.keycnt9 = (1 << 14) | (1 << 0);
    nds.set_keys(0x03FE);
    assert!(nds.shared.irq9.read_if() & Irq::Keypad.bit() != 0);
}

#[test]
fn test_keypad_irq_and_mode_requires_all() {
    let mut nds = Nds::new(None, None);
    nds.shared.keycnt9 = (1 << 14) | (1 << 15) | (1 << 0) | (1 << 1);
    // Press only A: no IRQ in AND mode
    nds.set_keys(0x03FE);
    assert_eq!(nds.shared.irq9.read_if() & Irq::Keypad.bit(), 0);
    // Press both A and B: IRQ
    nds.set_keys(0x03FC);
    assert!(nds.shared.irq9.read_if() & Irq::Keypad.bit() != 0);
    assert_eq!(nds.shared.irq7.read_if(), 0);
}

#[test]
fn frame_takes_its_cycles_and_every_line_its_two_events() {
    let mut nds = Nds::new(None, None);
    halt_both(&mut nds);
    assert_eq!(nds.scheduler.peek_time(), Some(HDRAW_CYCLES_ARM7 as u64));
    nds.run_cycles(HDRAW_CYCLES_ARM7 as u64);
    Outside::new().finish(&mut nds);
    assert_eq!(nds.shared.dispstat9 & 2, 2);
    assert_eq!(
        nds.scheduler.peek_time(),
        Some((HDRAW_CYCLES_ARM7 + HBLANK_CYCLES_ARM7) as u64)
    );
    nds.run_cycles(HBLANK_CYCLES_ARM7 as u64);
    Outside::new().finish(&mut nds);
    assert_eq!(nds.shared.vcount, 1);
    assert_eq!(nds.shared.dispstat9 & 2, 0);

    let mut nds = Nds::new(None, None);
    halt_both(&mut nds);
    run_frame(&mut nds);
    assert_eq!(nds.scheduler.timestamp(), CYCLES_PER_FRAME_ARM7);
    assert_eq!(nds.run.phase, Phase::Idle);
}

#[test]
fn round_runs_arm9_twice_and_arm7_once() {
    let mut nds = Nds::new(None, None);
    nds.run_cycles(1);
    let mut outside = Outside::new();
    outside.finish(&mut nds);
    assert_eq!(
        outside.log,
        vec![
            Action::StepCpu { cpu: CpuId::Arm9 },
            Action::StepCpu { cpu: CpuId::Arm9 },
            Action::StepCpu { cpu: CpuId::Arm7 },
            Action::MixAudio { cycles: 1 },
        ]
    );
}

#[test]
fn software_interrupt_goes_to_bios_or_built_in_code() {
    let mut nds = Nds::new(None, None);
    nds.cpu9.halted = true;
    nds.cpu9.pending_swi = Some(0x09);
    nds.cpu7.pending_swi = Some(0x05);
    nds.direct_boot = true;
    nds.step_one();
    let mut outside = Outside::new();
    outside.finish(&mut nds);
    assert_eq!(
        outside.log,
        vec![
            Action::SoftwareInterrupt { cpu: CpuId::Arm9, number: 0x09, built_in: true },
            Action::StepCpu { cpu: CpuId::Arm7 },
            Action::SoftwareInterrupt { cpu: CpuId::Arm7, number: 0x05, built_in: true },
        ]
    );
    assert_eq!(nds.cpu9.pending_swi, None);
    assert_eq!(nds.cpu7.pending_swi, None);
}

#[test]
fn vblank_line_runs_dma_of_both_processors() {
    let mut nds = Nds::new(None, None);
    nds.shared.vcount = 191;
    nds.dispatch_event(Event { fire_time: 0, kind: EventKind::HBlankEnd });
    let mut outside = Outside::new();
    outside.finish(&mut nds);
    assert_eq!(
        outside.log,
        vec![
            Action::ChooseDma { cpu: CpuId::Arm9, timing: DmaTiming::DisplaySync },
            Action::ChooseDma { cpu: CpuId::Arm9, timing: DmaTiming::VBlank },
            Action::ChooseDma { cpu: CpuId::Arm7, timing: DmaTiming::VBlank },
        ]
    );
    assert_eq!(nds.shared.dispstat9 & 1, 1);
    assert_eq!(nds.shared.dispstat7 & 1, 1);
}

#[test]
fn dma_interrupt_reaches_its_controller() {
    let mut nds = Nds::new(None, None);
    nds.shared.vcount = 10;
    nds.dispatch_event(Event { fire_time: 0, kind: EventKind::HBlankEnd });
    let mut outcome = Outcome::default();
    let mut ran = Vec::new();
    loop {
        let action = nds.resume(outcome);
        outcome = Outcome::default();
        match action {
            Action::Done => break,
            Action::ChooseDma { .. } => outcome.channels = 0b1010,
            Action::RunDma { cpu, channel } => {
                ran.push((cpu, channel));
                outcome.irq = channel == 3;
            }
            _ => {}
        }
    }
    assert_eq!(ran, vec![(CpuId::Arm9, 1), (CpuId::Arm9, 3)]);
    assert_eq!(nds.shared.irq9.read_if(), Irq::Dma3.bit());
    assert_eq!(nds.shared.irq7.read_if(), 0);
}

#[test]
fn debug_switches_mask_layers() {
    let mut nds = Nds::new(None, None);
    nds.shared.engine_a.dispcnt = 0x0001_1F00;
    nds.debug_disable_2d_obj = true;
    nds.debug_disable_2d_bg[2] = true;
    nds.dispatch_event(Event { fire_time: 0, kind: EventKind::HBlank });
    let mut outside = Outside::new();
    outside.finish(&mut nds);
    assert_eq!(
        outside.log[1],
        Action::RenderLine { engine: EngineWhich::A, line: 0, upper: false, dispcnt: 0x0001_0B00 }
    );
    assert_eq!(
        outside.log[2],
        Action::RenderLine { engine: EngineWhich::B, line: 0, upper: true, dispcnt: 0 }
    );
    assert_eq!(nds.shared.engine_a.dispcnt, 0x0001_1F00);
}

#[test]
fn line_match_sets_flag_and_interrupt() {
    let mut nds = Nds::new(None, None);
    // Line 256 + 5: bit 7 is the ninth bit of the line.
    nds.shared.dispstat9 = (5 << 8) | (1 << 7) | (1 << 5);
    nds.shared.dispstat7 = 6 << 8;
    nds.shared.vcount = 260;
    nds.dispatch_event(Event { fire_time: 0, kind: EventKind::HBlankEnd });
    Outside::new().finish(&mut nds);
    assert_eq!(nds.shared.vcount, 261);
    assert_eq!(nds.shared.dispstat9 & 4, 4);
    assert_eq!(nds.shared.irq9.read_if(), Irq::VCountMatch.bit());
    assert_eq!(nds.shared.dispstat7 & 4, 0);
    assert_eq!(nds.shared.irq7.read_if(), 0);
}

#[test]
fn card_transfer_completes_after_its_delay() {
    let mut nds = Nds::new(None, None);
    halt_both(&mut nds);
    nds.shared.slot1_pending.push_back(0x0302_0100);
    nds.shared.slot1_romctrl = 1 << 31;
    nds.shared.slot1_delay_request = Some(10);
    nds.shared.slot1_complete_irq = true;
    nds.run_cycles(5);
    Outside::new().finish(&mut nds);
    assert!(nds.shared.slot1_data.is_empty());
    assert_eq!(nds.shared.slot1_delay_request, None);
    nds.run_cycles(10);
    let mut outside = Outside::new();
    outside.finish(&mut nds);
    assert!(outside.log.contains(&Action::RunSlot1Dma { cpu: CpuId::Arm9 }));
    assert!(outside.log.contains(&Action::RunSlot1Dma { cpu: CpuId::Arm7 }));
    assert_eq!(nds.shared.slot1_data.len(), 1);
    assert_eq!(nds.shared.slot1_romctrl, (1 << 31) | (1 << 23));
    assert_eq!(nds.shared.irq9.read_if(), Irq::Slot1Data.bit());
    assert_eq!(nds.shared.irq7.read_if(), 0);
    assert!(!nds.shared.slot1_complete_irq);
}

#[test]
fn card_transfer_without_data_ends_and_may_interrupt_arm7() {
    let mut nds = Nds::new(None, None);
    nds.shared.slot1_romctrl = (1 << 31) | (1 << 23) | 7;
    nds.shared.slot1_complete_irq = true;
    nds.shared.slot1_complete_irq_to_arm7 = true;
    nds.dispatch_event(Event { fire_time: 0, kind: EventKind::Slot1Done });
    Outside::new().finish(&mut nds);
    assert_eq!(nds.shared.slot1_romctrl, 7);
    assert_eq!(nds.shared.irq7.read_if(), Irq::Slot1Data.bit());
    assert_eq!(nds.shared.irq9.read_if(), 0);
}

#[test]
fn cartridge_errors_are_passed_on() {
    let mut nds = Nds::new(None, None);
    let r: Result<(), CartLoadError<u8, u16>> = nds.load_cart_direct_boot(vec![1], Err(3), Ok(()));
    assert_eq!(r, Err(CartLoadError::Header(3)));
    let r: Result<(), CartLoadError<u8, u16>> = nds.load_cart_direct_boot(vec![1], Ok(()), Err(4));
    assert_eq!(r, Err(CartLoadError::DirectBoot(4)));
    assert!(!nds.direct_boot);
    assert!(nds.shared.slot1_rom.is_empty());
    let r: Result<(), CartLoadError<u8, u16>> =
        nds.load_cart_direct_boot(vec![1, 2], Ok(()), Ok(()));
    assert_eq!(r, Ok(()));
    assert!(nds.direct_boot);
    assert_eq!(nds.shared.slot1_rom, vec![1, 2]);
}

#[test]
fn extra_keys_keep_seven_bits() {
    let mut nds = Nds::new(None, None);
    nds.set_extkeys(0xFFA5);
    assert_eq!(nds.shared.extkeyin, 0x25);
}

#[test]
fn unfed_fifo_stops_feeding() {
    let mut nds = Nds::new(None, None);
    nds.shared.engine_a.dispcnt = 3 << 16;
    nds.shared.dma9_channel3.active = true;
    nds.shared.dma9_channel3.display_fifo = true;
    nds.dispatch_event(Event { fire_time: 0, kind: EventKind::HBlank });
    let mut outside = Outside::new();
    outside.finish(&mut nds);
    let fed = outside
        .log
        .iter()
        .filter(|a| matches!(a, Action::RunDma { cpu: CpuId::Arm9, channel: 3 }))
        .count();
    assert_eq!(fed, 1);
}

#[test]
fn round_runs_two_arm9_instructions_then_one_of_arm7() {
    let mut nds = Nds::new(None, None);
    let mut outside = Outside::new();
    nds.run_cycles(2);
    outside.finish(&mut nds);
    let steps: Vec<CpuId> = outside
        .log
        .iter()
        .filter_map(|a| match a {
            Action::StepCpu { cpu } => Some(*cpu),
            _ => None,
        })
        .collect();
    let (nine, seven) = (CpuId::Arm9, CpuId::Arm7);
    assert_eq!(steps, [nine, nine, seven, nine, nine, seven]);
    assert_eq!(nds.scheduler.timestamp(), 2);
}
