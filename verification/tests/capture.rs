use nds_core::capture::{
    blend_capture_pixels, capture_display_scanline, capture_needs_main_mem_fifo,
    capture_output_byte_pos, capture_size, capture_vram_addr,
};
use nds_core::vram::BankId;
use nds_core::{SharedState, SCREEN_HEIGHT, SCREEN_WIDTH};

#[test]
fn test_display_capture_128_width_uses_compact_output_stride() {
    let mut shared = SharedState::new();
    shared.vram.write_cnt(BankId::B, 0x80);
    shared.dispcapcnt = (1 << 31) | (1 << 16); // 128x128, source A, dest block B.
    shared.dispcap_active = true;

    let mut engine_a_framebuffer = vec![0u16; SCREEN_WIDTH * SCREEN_HEIGHT];
    engine_a_framebuffer[0] = 0x001F;
    engine_a_framebuffer[SCREEN_WIDTH] = 0x03E0;

    capture_display_scanline(&mut shared, 0, &engine_a_framebuffer);
    capture_display_scanline(&mut shared, 1, &engine_a_framebuffer);

    assert_eq!(shared.vram.read_lcdc_u16(0x2_0000), 0x8000 | 0x001F);
    assert_eq!(
        shared.vram.read_lcdc_u16(0x2_0100),
        0x8000 | 0x03E0,
        "128-wide capture row 1 should start immediately after row 0"
    );
    assert_eq!(
        shared.vram.read_lcdc_u16(0x2_0200),
        0,
        "128-wide capture must not use a 256-pixel output stride"
    );
}

#[test]
fn test_display_capture_256x64_uses_screen_stride_and_stops_at_height() {
    let mut shared = SharedState::new();
    shared.vram.write_cnt(BankId::B, 0x80);
    shared.dispcapcnt = (1 << 31) | (1 << 16) | (1 << 20); // 256x64, source A, dest block B.
    shared.dispcap_active = true;

    let mut engine_a_framebuffer = vec![0u16; SCREEN_WIDTH * SCREEN_HEIGHT];
    engine_a_framebuffer[63 * SCREEN_WIDTH] = 0x001F;
    engine_a_framebuffer[64 * SCREEN_WIDTH] = 0x03E0;

    capture_display_scanline(&mut shared, 63, &engine_a_framebuffer);
    capture_display_scanline(&mut shared, 64, &engine_a_framebuffer);

    assert_eq!(
        shared.vram.read_lcdc_u16(0x2_7E00),
        0x8000 | 0x001F,
        "256-wide capture row 63 should use a 256-pixel output stride"
    );
    assert_eq!(
        shared.vram.read_lcdc_u16(0x2_8000),
        0,
        "256x64 capture must not write line 64"
    );
    assert_ne!(shared.dispcapcnt & (1 << 31), 0);
    assert!(
        shared.dispcap_active,
        "short captures keep the busy bit until the visible frame ends"
    );
}

#[test]
fn test_display_capture_256x128_uses_screen_stride_and_stops_at_height() {
    let mut shared = SharedState::new();
    shared.vram.write_cnt(BankId::B, 0x80);
    shared.dispcapcnt = (1 << 31) | (1 << 16) | (2 << 20); // 256x128, source A, dest block B.
    shared.dispcap_active = true;

    let mut engine_a_framebuffer = vec![0u16; SCREEN_WIDTH * SCREEN_HEIGHT];
    engine_a_framebuffer[127 * SCREEN_WIDTH] = 0x001F;
    engine_a_framebuffer[128 * SCREEN_WIDTH] = 0x03E0;

    capture_display_scanline(&mut shared, 127, &engine_a_framebuffer);
    capture_display_scanline(&mut shared, 128, &engine_a_framebuffer);

    assert_eq!(
        shared.vram.read_lcdc_u16(0x2_FE00),
        0x8000 | 0x001F,
        "256-wide capture row 127 should use a 256-pixel output stride"
    );
    assert_eq!(
        shared.vram.read_lcdc_u16(0x3_0000),
        0,
        "256x128 capture must not write line 128"
    );
    assert_ne!(shared.dispcapcnt & (1 << 31), 0);
    assert!(
        shared.dispcap_active,
        "short captures keep the busy bit until the visible frame ends"
    );
}

#[test]
fn test_capture_blend_ignores_transparent_sources_and_gates_alpha() {
    let only_a = blend_capture_pixels(0x001F, true, 0x03E0, false, 8, 8);
    assert_eq!(only_a, 0x8000 | 15);

    let no_alpha = blend_capture_pixels(0x001F, true, 0x03E0, true, 0, 0);
    assert_eq!(no_alpha, 0);
}

#[test]
fn full_weight_keeps_the_pixel() {
    assert_eq!(blend_capture_pixels(0x1234, true, 0x7FFF, true, 16, 0), 0x9234);
    assert_eq!(blend_capture_pixels(0x7FFF, false, 0x1234, true, 16, 16), 0x9234);
}

#[test]
fn blend_saturates() {
    assert_eq!(blend_capture_pixels(0x7FFF, true, 0x7FFF, true, 16, 16), 0xFFFF);
}

#[test]
fn sizes_and_positions() {
    assert_eq!(capture_size(0), (128, 128));
    assert_eq!(capture_size(1 << 20), (256, 64));
    assert_eq!(capture_size(2 << 20), (256, 128));
    assert_eq!(capture_size(3 << 20), (256, 192));
    assert_eq!(capture_vram_addr(2, 0x1_8000, 0x8002), 0x4_0002);
    assert_eq!(capture_output_byte_pos(128, 2, 3), 518);
    assert_eq!(capture_output_byte_pos(256, 2, 3), 1030);
}

#[test]
fn last_visible_line_ends_capture() {
    let mut shared = SharedState::new();
    shared.dispcapcnt = (1 << 31) | (1 << 20) | 5;
    shared.dispcap_active = true;
    let screen = vec![0u16; SCREEN_WIDTH * SCREEN_HEIGHT];
    capture_display_scanline(&mut shared, 190, &screen);
    assert!(shared.dispcap_active);
    capture_display_scanline(&mut shared, 191, &screen);
    assert!(!shared.dispcap_active);
    assert_eq!(shared.dispcapcnt, (1 << 20) | 5);
}

#[test]
fn scene_is_captured_with_its_marks() {
    let mut shared = SharedState::new();
    shared.vram.write_cnt(BankId::A, 0x80);
    shared.dispcapcnt = (1 << 31) | (3 << 20) | (1 << 24);
    shared.dispcap_active = true;
    shared.gpu3d.rasterizer.framebuffer[0] = 0x8123;
    shared.gpu3d.rasterizer.framebuffer[1] = 0x0123;
    let screen = vec![0x7FFFu16; SCREEN_WIDTH * SCREEN_HEIGHT];
    capture_display_scanline(&mut shared, 0, &screen);
    assert_eq!(shared.vram.read_lcdc_u16(0), 0x8123);
    assert_eq!(shared.vram.read_lcdc_u16(2), 0x0123);
}

#[test]
fn fifo_wanted_only_by_captures_of_it() {
    let mut shared = SharedState::new();
    shared.dispcapcnt = (1 << 31) | (1 << 25) | (1 << 29) | (1 << 20);
    assert!(!capture_needs_main_mem_fifo(&shared, 0));
    shared.dispcap_pending = true;
    assert!(capture_needs_main_mem_fifo(&shared, 0));
    assert!(!capture_needs_main_mem_fifo(&shared, 1));
    shared.dispcap_active = true;
    assert!(capture_needs_main_mem_fifo(&shared, 63));
    assert!(!capture_needs_main_mem_fifo(&shared, 64));
    shared.dispcapcnt &= !(3 << 29);
    assert!(!capture_needs_main_mem_fifo(&shared, 0));
}
