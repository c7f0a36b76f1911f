//! Core of a handheld console emulator: the 3D geometry engine and
//! rasterizer, the VRAM router, the inter-processor link, interrupts, timers,
//! the SPI devices, display capture, and the decisions of the frame loop.

pub mod bgr555;
pub mod capture;
pub mod crc;
pub mod fixed;
pub mod gpu3d;
pub mod interrupt;
pub mod ipc;
pub mod nds;
pub mod scheduler;
pub mod shared;
pub mod spi;
pub mod timer;
pub mod timing;
pub mod trace;
pub mod vram;

pub use interrupt::{InterruptController, Irq};
pub use nds::{Action, Arm7Memory, Arm9Memory, CartLoadError, Cpu, EngineWhich, Nds, Outcome};
pub use scheduler::{CpuId, Event, EventKind, Scheduler};
pub use shared::SharedState;
pub use timing::{
    ARM7_CLOCK_HZ, ARM9_CLOCK_HZ, CYCLES_PER_DOT_ARM7, CYCLES_PER_FRAME_ARM7, CYCLES_PER_LINE_ARM7,
    DOTS_PER_LINE, HBLANK_CYCLES_ARM7, HBLANK_DOTS, HDRAW_CYCLES_ARM7, LINES_PER_FRAME,
    SCREEN_HEIGHT, SCREEN_WIDTH, VBLANK_LINES, VISIBLE_DOTS, VISIBLE_LINES,
};
