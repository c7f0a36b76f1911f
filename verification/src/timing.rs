//! Timing of the display, in ARM7 cycles (1 ARM7 cycle = 2 ARM9 cycles).

use vstd::prelude::*;

verus! {

pub const ARM7_CLOCK_HZ: u32 = 33_513_982;

pub const ARM9_CLOCK_HZ: u32 = 67_027_964;

pub const CYCLES_PER_DOT_ARM7: u32 = 6;

pub const DOTS_PER_LINE: u32 = 355;

pub const VISIBLE_DOTS: u32 = 256;

pub const HBLANK_DOTS: u32 = 99;

pub const CYCLES_PER_LINE_ARM7: u32 = 2130;

pub const HDRAW_CYCLES_ARM7: u32 = 1536;

pub const HBLANK_CYCLES_ARM7: u32 = 594;

pub const VISIBLE_LINES: u16 = 192;

pub const VBLANK_LINES: u16 = 71;

pub const LINES_PER_FRAME: u16 = 263;

pub const CYCLES_PER_FRAME_ARM7: u64 = 560_190;

pub const SCREEN_WIDTH: usize = 256;

pub const SCREEN_HEIGHT: usize = 192;

/// The constants fit together: a line is its visible part and its HBlank, a
/// frame its visible lines and its VBlank.
pub proof fn law_frame_adds_up()
    ensures
        HBLANK_DOTS == DOTS_PER_LINE - VISIBLE_DOTS,
        HDRAW_CYCLES_ARM7 == VISIBLE_DOTS * CYCLES_PER_DOT_ARM7,
        HBLANK_CYCLES_ARM7 == HBLANK_DOTS * CYCLES_PER_DOT_ARM7,
        CYCLES_PER_LINE_ARM7 == HDRAW_CYCLES_ARM7 + HBLANK_CYCLES_ARM7,
        LINES_PER_FRAME == VISIBLE_LINES + VBLANK_LINES,
        CYCLES_PER_FRAME_ARM7 == CYCLES_PER_LINE_ARM7 * LINES_PER_FRAME,
        ARM9_CLOCK_HZ == 2 * ARM7_CLOCK_HZ,
{
    assert(256 * 6 == 1536 && 99 * 6 == 594 && 2130 * 263 == 560_190) by (nonlinear_arith);
}

} // verus!
