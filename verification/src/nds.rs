//! The console: the frame loop and the dispatch of its events.
//!
//! The processors, the DMA transfers, the 2D engines and the sound mixer run
//! outside. The loop decides what is to happen next: [`Nds::resume`] does one
//! step and says which outside work is due; the caller does it and resumes with
//! its outcome.

use vstd::prelude::*;
use crate::capture;
use crate::fixed;
use crate::interrupt::{InterruptController, Irq};
use crate::scheduler;
use crate::scheduler::{CpuId, Event, EventKind, Scheduler, SchedulerState};
use crate::shared;
use crate::shared::{DmaStatus, SharedState, SharedView};
use crate::timing::{
    CYCLES_PER_FRAME_ARM7, HBLANK_CYCLES_ARM7, HDRAW_CYCLES_ARM7, VISIBLE_LINES,
};

verus! {

/// A tightly coupled memory.
#[derive(Debug, Clone, Copy, PartialEq, Eq, Structural)]
pub struct TcmRegion {
    pub base: u32,
    pub size_bytes: u32,
}

/// What the loop sees of a processor.
#[derive(Debug, Clone, Copy, PartialEq, Eq, Structural)]
pub struct Cpu {
    pub halted: bool,
    /// While not 0, only these interrupts end a halt.
    pub intrwait_mask: u32,
    /// A software interrupt that the last instruction raised.
    pub pending_swi: Option<u8>,
    pub dtcm: TcmRegion,
}

/// ARM9's own memory.
#[derive(Debug, Clone)]
pub struct Arm9Memory {
    pub bios: Option<Vec<u8>>,
    pub dtcm: Vec<u8>,
}

/// ARM7's own memory.
#[derive(Debug, Clone)]
pub struct Arm7Memory {
    pub bios: Option<Vec<u8>>,
}

/// When a DMA channel starts.
#[derive(Debug, Clone, Copy, PartialEq, Eq, Structural)]
pub enum DmaTiming {
    VBlank,
    HBlankVisible,
    DisplaySync,
}

/// The two 2D engines.
#[derive(Debug, Clone, Copy, PartialEq, Eq, Structural)]
pub enum EngineWhich {
    A,
    B,
}

/// Outside work that is due.
#[derive(Debug, Clone, Copy, PartialEq, Eq, Structural)]
pub enum Action {
    /// None; resume.
    Continue,
    /// The run is over.
    Done,
    /// Run one instruction; its cycles are the outcome.
    StepCpu { cpu: CpuId },
    /// Tell whether ARM9 has an interrupt vector of its own.
    CheckIrqVector,
    /// Handle a software interrupt, by built-in code or through the BIOS.
    SoftwareInterrupt { cpu: CpuId, number: u8, built_in: bool },
    /// Mix sound for some ARM7 cycles.
    MixAudio { cycles: u32 },
    /// Tell which DMA channels are armed for an occasion.
    ChooseDma { cpu: CpuId, timing: DmaTiming },
    /// Run a DMA channel; its interrupt request is the outcome.
    RunDma { cpu: CpuId, channel: u8 },
    /// Draw a line of a 2D engine with this display control.
    RenderLine { engine: EngineWhich, line: u16, upper: bool, dispcnt: u32 },
    /// Latch both engines' affine reference points.
    LatchAffine,
    /// Run the DMA channels that feed the geometry FIFO.
    RunGxFifoDma,
    /// Run the DMA channels that wait for card data.
    RunSlot1Dma { cpu: CpuId },
}

/// What came of outside work.
#[derive(Debug, Clone, Copy, PartialEq, Eq, Structural)]
pub struct Outcome {
    /// Cycles of an instruction.
    pub cycles: u32,
    /// Whether a DMA channel asks for its interrupt.
    pub irq: bool,
    /// The DMA channels that were chosen.
    pub channels: u8,
    /// Whether ARM9 has an interrupt vector.
    pub irq_vector: bool,
}

impl Default for Outcome {
    fn default() -> (r: Self)
        ensures
            r == (Outcome { cycles: 0, irq: false, channels: 0, irq_vector: false }),
    {
        Outcome { cycles: 0, irq: false, channels: 0, irq_vector: false }
    }
}

/// What kind of run is going on.
#[derive(Debug, Clone, Copy, PartialEq, Eq, Structural)]
pub enum Mode {
    /// Until a time.
    Run,
    /// One instruction on each processor.
    Single,
    /// One event.
    Dispatch,
}

/// What follows a round of DMA.
#[derive(Debug, Clone, Copy, PartialEq, Eq, Structural)]
pub enum After {
    HBlank,
    LineSync { line: u16 },
    VBlankArm9,
    VBlankArm7,
}

/// Where the loop stands.
#[derive(Debug, Clone, Copy, PartialEq, Eq, Structural)]
pub enum Phase {
    Idle,
    /// Is the target reached?
    Head,
    /// Before an ARM9 instruction, the first or the second of a round.
    Arm9 { second: bool },
    /// The interrupt vector was asked for.
    Vector { second: bool },
    /// An ARM9 instruction ran.
    Ran9 { second: bool },
    /// A software interrupt of ARM9 may be due.
    Swi9 { second: bool },
    /// Before the ARM7 instruction.
    Arm7,
    /// It ran.
    Ran7,
    /// ARM7 may have asked to be halted.
    Halt7,
    Timers,
    /// Time moves on.
    Clock,
    /// Is an event due?
    Events,
    HBlank,
    /// The line's picture.
    Picture,
    Feed { line: u16, upper: bool },
    Fed { line: u16, upper: bool, before_len: usize, before_active: bool },
    ShowA { line: u16, upper: bool },
    ShownA { line: u16, upper: bool },
    ShownB,
    HBlankDone,
    HBlankEnd,
    LineSync { line: u16 },
    VBlankArm7,
    VBlankMark,
    SwapBuffers,
    LineDone,
    Card,
    CardArm7,
    CardDone,
    EventDone,
    /// The channels of a round of DMA were asked for.
    DmaChosen { cpu: CpuId, after: After },
    /// From channel `next` on.
    Dma { cpu: CpuId, channels: u8, next: u8, after: After },
    /// Channel `next` ran.
    DmaRan { cpu: CpuId, channels: u8, next: u8, after: After },
}

/// The state of a run.
#[derive(Debug, Clone, Copy, PartialEq, Eq, Structural)]
pub struct Run {
    pub phase: Phase,
    pub mode: Mode,
    pub target: u64,
    /// Cycles of this round.
    pub arm9_cycles: u32,
    pub arm7_cycles: u32,
}

#[derive(Debug, Clone)]
pub struct Nds {
    pub cpu9: Cpu,
    pub cpu7: Cpu,
    pub mem9: Arm9Memory,
    pub mem7: Arm7Memory,
    pub shared: SharedState,
    pub scheduler: Scheduler,
    pub framebuffer_top: Vec<u16>,
    pub framebuffer_bot: Vec<u16>,
    /// The game runs without a BIOS: software interrupts go to built-in code.
    pub direct_boot: bool,
    pub debug_disable_2d_obj: bool,
    pub debug_disable_2d_bg: [bool; 4],
    pub run: Run,
}

/// The console as contracts speak of it.
pub struct NdsState {
    pub cpu9: Cpu,
    pub cpu7: Cpu,
    pub bios9: Option<Vec<u8>>,
    pub bios7: Option<Vec<u8>>,
    pub dtcm: Seq<u8>,
    pub shared: SharedView,
    pub scheduler: SchedulerState,
    pub top: Seq<u16>,
    pub bottom: Seq<u16>,
    pub direct_boot: bool,
    pub disable_obj: bool,
    pub disable_bg: [bool; 4],
    pub run: Run,
}

impl View for Nds {
    type V = NdsState;

    open spec fn view(&self) -> NdsState {
        NdsState {
            cpu9: self.cpu9,
            cpu7: self.cpu7,
            bios9: self.mem9.bios,
            bios7: self.mem7.bios,
            dtcm: self.mem9.dtcm@,
            shared: self.shared@,
            scheduler: self.scheduler@,
            top: self.framebuffer_top@,
            bottom: self.framebuffer_bot@,
            direct_boot: self.direct_boot,
            disable_obj: self.debug_disable_2d_obj,
            disable_bg: self.debug_disable_2d_bg,
            run: self.run,
        }
    }
}

/// An interrupt ends a halt: any enabled one, or one of those that the
/// processor waits for. The master enable does not matter.
pub open spec fn wakes(cpu: Cpu, irq: InterruptController) -> bool {
    cpu.halted && if cpu.intrwait_mask != 0 {
        irq.ie & irq.iflag & cpu.intrwait_mask != 0
    } else {
        irq.ie & irq.iflag != 0
    }
}

/// A processor after the wake check.
pub open spec fn woken(cpu: Cpu, irq: InterruptController) -> Cpu {
    if wakes(cpu, irq) {
        Cpu { halted: false, intrwait_mask: 0, ..cpu }
    } else {
        cpu
    }
}

/// Display control with the layers that are switched off for debugging removed:
/// bit 12 for sprites, bits 8-11 for the backgrounds.
pub open spec fn masked_dispcnt(dispcnt: int, disable_obj: bool, disable_bg: [bool; 4]) -> int {
    let d0 = if disable_obj { fixed::without_bit(dispcnt, 0x1000) } else { dispcnt };
    let d1 = if disable_bg[0] { fixed::without_bit(d0, 0x100) } else { d0 };
    let d2 = if disable_bg[1] { fixed::without_bit(d1, 0x200) } else { d1 };
    let d3 = if disable_bg[2] { fixed::without_bit(d2, 0x400) } else { d2 };
    if disable_bg[3] {
        fixed::without_bit(d3, 0x800)
    } else {
        d3
    }
}

/// The interrupt of a DMA channel.
pub open spec fn dma_irq(channel: int) -> Irq {
    if channel == 0 {
        Irq::Dma0
    } else if channel == 1 {
        Irq::Dma1
    } else if channel == 2 {
        Irq::Dma2
    } else {
        Irq::Dma3
    }
}

/// The little-endian word at an offset.
pub open spec fn word_at(bytes: Seq<u8>, off: int) -> int {
    bytes[off] + 0x100 * bytes[off + 1] + 0x1_0000 * bytes[off + 2] + 0x100_0000 * bytes[off + 3]
}

/// Bytes with a little-endian word stored at an offset.
pub open spec fn with_word(bytes: Seq<u8>, off: int, word: u32) -> Seq<u8> {
    bytes.update(off, (word % 0x100) as u8).update(off + 1, (word / 0x100 % 0x100) as u8).update(
        off + 2,
        (word / 0x1_0000 % 0x100) as u8,
    ).update(off + 3, (word / 0x100_0000) as u8)
}

/// ARM9's data memory with interrupts noted where a game that was booted
/// directly looks for them: in the last but one word.
pub open spec fn noted(dtcm: Seq<u8>, region: TcmRegion, pending: u32) -> Seq<u8> {
    if pending == 0 || region.size_bytes < 8 {
        dtcm
    } else {
        let off = region.size_bytes - 8;
        with_word(dtcm, off, word_at(dtcm, off) as u32 | pending)
    }
}

/// The phase that begins an event.
pub open spec fn first_phase(kind: EventKind) -> Phase {
    match kind {
        EventKind::HBlank => Phase::HBlank,
        EventKind::HBlankEnd => Phase::HBlankEnd,
        EventKind::Slot1Done => Phase::Card,
        _ => Phase::EventDone,
    }
}

/// The phase after a round of DMA.
pub open spec fn phase_after(after: After) -> Phase {
    match after {
        After::HBlank => Phase::Picture,
        After::LineSync { line } => Phase::LineSync { line },
        After::VBlankArm9 => Phase::VBlankArm7,
        After::VBlankArm7 => Phase::VBlankMark,
    }
}

/// Lines in a phase are visible ones where the phase needs it.
pub open spec fn phase_ok(phase: Phase) -> bool {
    match phase {
        Phase::Feed { line, upper } => line < 192,
        Phase::Fed { line, upper, before_len, before_active } => line < 192,
        Phase::ShowA { line, upper } => line < 192,
        Phase::ShownA { line, upper } => line < 192,
        _ => true,
    }
}

/// Whether the round's first ARM9 instruction has not been counted yet.
pub open spec fn before_first(phase: Phase) -> bool {
    match phase {
        Phase::Arm9 { second } => !second,
        Phase::Vector { second } => !second,
        Phase::Ran9 { second } => !second,
        _ => false,
    }
}

/// Whether the round's second ARM9 instruction has not been counted yet.
pub open spec fn before_second(phase: Phase) -> bool {
    match phase {
        Phase::Arm9 { second } => second,
        Phase::Vector { second } => second,
        Phase::Ran9 { second } => second,
        Phase::Swi9 { second } => !second,
        _ => false,
    }
}

impl NdsState {
    /// What every step keeps, the shared state apart.
    pub open spec fn wf(self) -> bool {
        &&& self.top.len() == capture::SCREEN_PIXELS
        &&& self.bottom.len() == capture::SCREEN_PIXELS
        &&& self.cpu9.dtcm.size_bytes <= self.dtcm.len()
        &&& phase_ok(self.run.phase)
        &&& before_first(self.run.phase) ==> self.run.arm9_cycles == 0
        &&& before_second(self.run.phase) ==> self.run.arm9_cycles <= 0x7FFF_FFFF
    }

    /// The clock has room for what the loop may add to it.
    pub open spec fn clock_ok(self) -> bool {
        &&& self.scheduler.timestamp <= 0x7FFF_FFFF_FFFF_FFFF
        &&& self.shared.slot1_delay_request matches Some(d) ==> d <= 0x3FFF_FFFF_FFFF_FFFF
    }

    pub open spec fn at(self, phase: Phase) -> NdsState {
        NdsState { run: Run { phase, ..self.run }, ..self }
    }

    pub open spec fn with_shared(self, shared: SharedView) -> NdsState {
        NdsState { shared, ..self }
    }

    /// Time moves on.
    pub open spec fn clocked(self, cycles: int) -> NdsState {
        NdsState {
            scheduler: SchedulerState {
                timestamp: ((self.scheduler.timestamp + cycles) % 0x1_0000_0000_0000_0000) as u64,
                ..self.scheduler
            },
            ..self
        }
    }

    /// An event is scheduled some cycles from now.
    pub open spec fn scheduled(self, delay: int, kind: EventKind) -> NdsState {
        NdsState {
            scheduler: SchedulerState {
                events: self.scheduler.events.push(
                    Event { fire_time: (self.scheduler.timestamp + delay) as u64, kind },
                ),
                ..self.scheduler
            },
            ..self
        }
    }

    /// A card transfer that was started gets its completion event, in place of
    /// any earlier one.
    pub open spec fn pumped(self) -> NdsState {
        match self.shared.slot1_delay_request {
            None => self,
            Some(delay) => NdsState {
                shared: SharedView { slot1_delay_request: None, ..self.shared },
                scheduler: SchedulerState {
                    events: scheduler::without_kind(
                        self.scheduler.events,
                        EventKind::Slot1Done,
                    ).push(
                        Event {
                            fire_time: (self.scheduler.timestamp + delay) as u64,
                            kind: EventKind::Slot1Done,
                        },
                    ),
                    ..self.scheduler
                },
                ..self
            },
        }
    }

    /// The event is over.
    #[verifier::opaque]
    pub open spec fn event_done(self) -> (NdsState, Action) {
        if self.run.mode == Mode::Dispatch {
            (self.at(Phase::Idle), Action::Done)
        } else {
            (self.at(Phase::Events), Action::Continue)
        }
    }

    /// Is the target reached?
    #[verifier::opaque]
    pub open spec fn head(self) -> (NdsState, Action) {
        if self.scheduler.timestamp >= self.run.target {
            (self.at(Phase::Idle), Action::Done)
        } else {
            (
                NdsState {
                    run: Run {
                        phase: Phase::Arm9 { second: false },
                        arm9_cycles: 0,
                        ..self.run
                    },
                    ..self
                },
                Action::Continue,
            )
        }
    }

    /// ARM9's turn: a halted processor lets one cycle pass.
    #[verifier::opaque]
    pub open spec fn arm9(self, second: bool) -> (NdsState, Action) {
        if self.cpu9.halted {
            (
                NdsState {
                    run: Run {
                        phase: Phase::Swi9 { second },
                        arm9_cycles: (self.run.arm9_cycles + 1) as u32,
                        ..self.run
                    },
                    ..self
                },
                Action::Continue,
            )
        } else if self.direct_boot && self.shared.irq9.pending() {
            (self.at(Phase::Vector { second }), Action::CheckIrqVector)
        } else {
            (self.at(Phase::Ran9 { second }), Action::StepCpu { cpu: CpuId::Arm9 })
        }
    }

    /// An interrupt of a directly booted game that has neither a vector nor a
    /// handler is noted and acknowledged.
    #[verifier::opaque]
    pub open spec fn vector(self, second: bool, o: Outcome) -> (NdsState, Action) {
        let pending = self.shared.irq9.ie & self.shared.irq9.iflag;
        let s = if o.irq_vector || self.shared.word(0x02FF_3FFC) != 0 {
            self
        } else {
            NdsState {
                dtcm: noted(self.dtcm, self.cpu9.dtcm, pending),
                shared: SharedView {
                    irq9: self.shared.irq9.acknowledged(pending),
                    ..self.shared
                },
                ..self
            }
        };
        (s.at(Phase::Ran9 { second }), Action::StepCpu { cpu: CpuId::Arm9 })
    }

    #[verifier::opaque]
    pub open spec fn ran9(self, second: bool, o: Outcome) -> (NdsState, Action) {
        (
            NdsState {
                run: Run {
                    phase: Phase::Swi9 { second },
                    arm9_cycles: (self.run.arm9_cycles + o.cycles) as u32,
                    ..self.run
                },
                ..self
            },
            Action::Continue,
        )
    }

    #[verifier::opaque]
    pub open spec fn swi9(self, second: bool) -> (NdsState, Action) {
        let next = if second { Phase::Arm7 } else { Phase::Arm9 { second: true } };
        match self.cpu9.pending_swi {
            Some(number) => (
                NdsState { cpu9: Cpu { pending_swi: None, ..self.cpu9 }, ..self }.at(next),
                Action::SoftwareInterrupt { cpu: CpuId::Arm9, number, built_in: self.direct_boot },
            ),
            None => (self.at(next), Action::Continue),
        }
    }

    /// The phase after ARM7's turn: a single step has no timers and no sound.
    pub open spec fn after_arm7(self) -> Phase {
        if self.run.mode == Mode::Run { Phase::Timers } else { Phase::Clock }
    }

    pub open spec fn with_arm7_cycles(self, cycles: u32) -> NdsState {
        let s = NdsState { run: Run { arm7_cycles: cycles, ..self.run }, ..self };
        if self.run.mode == Mode::Run {
            s
        } else {
            s.clocked(cycles as int)
        }
    }

    #[verifier::opaque]
    pub open spec fn arm7(self) -> (NdsState, Action) {
        if self.cpu7.halted {
            (self.with_arm7_cycles(1).at(self.after_arm7()), Action::Continue)
        } else {
            (self.at(Phase::Ran7), Action::StepCpu { cpu: CpuId::Arm7 })
        }
    }

    #[verifier::opaque]
    pub open spec fn ran7(self, o: Outcome) -> (NdsState, Action) {
        let s = self.with_arm7_cycles(o.cycles).at(Phase::Halt7);
        match self.cpu7.pending_swi {
            Some(number) => (
                NdsState { cpu7: Cpu { pending_swi: None, ..s.cpu7 }, ..s },
                Action::SoftwareInterrupt { cpu: CpuId::Arm7, number, built_in: self.direct_boot },
            ),
            None => (s, Action::Continue),
        }
    }

    #[verifier::opaque]
    pub open spec fn halt7(self) -> (NdsState, Action) {
        let s = if self.shared.halt7_requested {
            NdsState {
                cpu7: Cpu { halted: true, ..self.cpu7 },
                shared: SharedView { halt7_requested: false, ..self.shared },
                ..self
            }
        } else {
            self
        };
        (s.at(self.after_arm7()), Action::Continue)
    }

    #[verifier::opaque]
    pub open spec fn timers(self) -> (NdsState, Action) {
        (
            self.with_shared(
                self.shared.ticked(self.run.arm9_cycles as int, self.run.arm7_cycles as int),
            ).at(Phase::Clock),
            Action::MixAudio { cycles: self.run.arm7_cycles },
        )
    }

    #[verifier::opaque]
    pub open spec fn clock(self) -> (NdsState, Action) {
        let s = if self.run.mode == Mode::Run {
            self.clocked(self.run.arm7_cycles as int)
        } else {
            self
        };
        (s.pumped().at(Phase::Events), Action::Continue)
    }

    /// A due event begins. Without one, a round ends with level-triggered
    /// interrupts and the wake check.
    #[verifier::opaque]
    pub open spec fn events(self) -> (NdsState, Action) {
        match self.scheduler.due() {
            Some(e) => (
                NdsState { scheduler: self.scheduler.taken(), ..self }.at(first_phase(e.kind)),
                Action::Continue,
            ),
            None => if self.run.mode == Mode::Run {
                (self.rested().at(Phase::Head), Action::Continue)
            } else {
                (self.at(Phase::Idle), Action::Done)
            },
        }
    }

    pub open spec fn rested(self) -> NdsState {
        let shared = self.shared.levels_requested();
        NdsState {
            shared,
            cpu9: woken(self.cpu9, shared.irq9),
            cpu7: woken(self.cpu7, shared.irq7),
            ..self
        }
    }

    #[verifier::opaque]
    pub open spec fn hblank(self) -> (NdsState, Action) {
        let s = self.with_shared(self.shared.in_hblank());
        if self.shared.vcount < VISIBLE_LINES {
            (
                s.at(Phase::DmaChosen { cpu: CpuId::Arm9, after: After::HBlank }),
                Action::ChooseDma { cpu: CpuId::Arm9, timing: DmaTiming::HBlankVisible },
            )
        } else {
            (s.at(Phase::HBlankDone), Action::Continue)
        }
    }

    #[verifier::opaque]
    pub open spec fn dma(self, cpu: CpuId, channels: u8, next: u8, after: After) -> (NdsState, Action) {
        if next >= 4 {
            (self.at(phase_after(after)), Action::Continue)
        } else if channel_chosen(channels, next) {
            (
                self.at(Phase::DmaRan { cpu, channels, next, after }),
                Action::RunDma { cpu, channel: next },
            )
        } else {
            (
                self.at(Phase::Dma { cpu, channels, next: (next + 1) as u8, after }),
                Action::Continue,
            )
        }
    }

    /// A DMA channel's interrupt goes to its processor.
    pub open spec fn dma_requested(self, cpu: CpuId, channel: int, irq: bool) -> NdsState {
        match cpu {
            CpuId::Arm9 => self.with_shared(
                SharedView {
                    irq9: shared::requested_if(self.shared.irq9, irq, dma_irq(channel)),
                    ..self.shared
                },
            ),
            CpuId::Arm7 => self.with_shared(
                SharedView {
                    irq7: shared::requested_if(self.shared.irq7, irq, dma_irq(channel)),
                    ..self.shared
                },
            ),
        }
    }

    #[verifier::opaque]
    pub open spec fn dma_ran(
        self,
        cpu: CpuId,
        channels: u8,
        next: u8,
        after: After,
        o: Outcome,
    ) -> (NdsState, Action) {
        (
            self.dma_requested(cpu, next as int, o.irq).at(
                Phase::Dma {
                    cpu,
                    channels,
                    next: if next < 4 { (next + 1) as u8 } else { 4 },
                    after,
                },
            ),
            Action::Continue,
        )
    }

    /// The picture of a visible line. The main-memory FIFO is fed first where
    /// engine A or the capture will read it.
    #[verifier::opaque]
    pub open spec fn picture(self) -> (NdsState, Action) {
        let line = self.shared.vcount;
        let upper = self.a_on_top();
        if line >= VISIBLE_LINES {
            (self.at(Phase::HBlankDone), Action::Continue)
        } else if self.shared.engine_a.dispcnt as int / 0x1_0000 % 4 == 3
            || self.shared.capture_wants_fifo(line as int) {
            (self.at(Phase::Feed { line, upper }), Action::Continue)
        } else {
            (self.at(Phase::ShowA { line, upper }), Action::Continue)
        }
    }

    #[verifier::opaque]
    pub open spec fn feed(self, line: u16, upper: bool) -> (NdsState, Action) {
        if self.shared.disp_mmem_fifo.len() < 128 && self.shared.dma9_channel3.active
            && self.shared.dma9_channel3.display_fifo {
            (
                self.at(
                    Phase::Fed {
                        line,
                        upper,
                        before_len: self.shared.disp_mmem_fifo.len() as usize,
                        before_active: true,
                    },
                ),
                Action::RunDma { cpu: CpuId::Arm9, channel: 3 },
            )
        } else {
            (self.at(Phase::ShowA { line, upper }), Action::Continue)
        }
    }

    /// Feeding stops where the channel had no effect.
    #[verifier::opaque]
    pub open spec fn fed(
        self,
        line: u16,
        upper: bool,
        before_len: usize,
        before_active: bool,
        o: Outcome,
    ) -> (NdsState, Action) {
        let s = self.dma_requested(CpuId::Arm9, 3, o.irq);
        if self.shared.disp_mmem_fifo.len() == before_len && self.shared.dma9_channel3.active
            == before_active {
            (s.at(Phase::ShowA { line, upper }), Action::Continue)
        } else {
            (s.at(Phase::Feed { line, upper }), Action::Continue)
        }
    }

    /// Whether engine A shows on the upper screen.
    pub open spec fn a_on_top(self) -> bool {
        fixed::bit(self.shared.powcnt1 as int, 0x8000)
    }

    /// One of the two screens.
    pub open spec fn screen(self, upper: bool) -> Seq<u16> {
        if upper { self.top } else { self.bottom }
    }

    #[verifier::opaque]
    pub open spec fn show_a(self, line: u16, upper: bool) -> (NdsState, Action) {
        (
            self.at(Phase::ShownA { line, upper }),
            Action::RenderLine {
                engine: EngineWhich::A,
                line,
                upper,
                dispcnt: masked_dispcnt(
                    self.shared.engine_a.dispcnt as int,
                    self.disable_obj,
                    self.disable_bg,
                ) as u32,
            },
        )
    }

    /// Engine A's line is captured; engine B shows on the other screen.
    #[verifier::opaque]
    pub open spec fn shown_a(self, line: u16, upper: bool) -> (NdsState, Action) {
        (
            self.with_shared(self.shared.scanline_captured(line as int, self.screen(upper))).at(
                Phase::ShownB,
            ),
            Action::RenderLine {
                engine: EngineWhich::B,
                line,
                upper: !upper,
                dispcnt: masked_dispcnt(
                    self.shared.engine_b.dispcnt as int,
                    self.disable_obj,
                    self.disable_bg,
                ) as u32,
            },
        )
    }

    #[verifier::opaque]
    pub open spec fn shown_b(self) -> (NdsState, Action) {
        let s = if self.shared.vcount < VISIBLE_LINES {
            self.with_shared(self.shared.hblank_requested())
        } else {
            self
        };
        (s.at(Phase::HBlankDone), Action::Continue)
    }

    #[verifier::opaque]
    pub open spec fn hblank_done(self) -> (NdsState, Action) {
        self.scheduled(HBLANK_CYCLES_ARM7 as int, EventKind::HBlankEnd).event_done()
    }

    /// The next line begins. Display-sync DMA runs on lines 2 to 193.
    #[verifier::opaque]
    pub open spec fn hblank_end(self) -> (NdsState, Action) {
        let s = self.with_shared(self.shared.next_line());
        let line = s.shared.vcount;
        if 2 <= line <= 193 {
            (
                s.at(Phase::DmaChosen { cpu: CpuId::Arm9, after: After::LineSync { line } }),
                Action::ChooseDma { cpu: CpuId::Arm9, timing: DmaTiming::DisplaySync },
            )
        } else {
            (s.at(Phase::LineSync { line }), Action::Continue)
        }
    }

    /// VBlank begins with line 192 and ends with line 0.
    #[verifier::opaque]
    pub open spec fn line_sync(self, line: u16) -> (NdsState, Action) {
        if line == VISIBLE_LINES {
            (
                self.with_shared(self.shared.in_vblank()).at(
                    Phase::DmaChosen { cpu: CpuId::Arm9, after: After::VBlankArm9 },
                ),
                Action::ChooseDma { cpu: CpuId::Arm9, timing: DmaTiming::VBlank },
            )
        } else if line == 0 {
            (
                self.with_shared(self.shared.vblank_ended()).at(Phase::SwapBuffers),
                Action::LatchAffine,
            )
        } else {
            (self.at(Phase::LineDone), Action::Continue)
        }
    }

    #[verifier::opaque]
    pub open spec fn vblank_arm7(self) -> (NdsState, Action) {
        (
            self.at(Phase::DmaChosen { cpu: CpuId::Arm7, after: After::VBlankArm7 }),
            Action::ChooseDma { cpu: CpuId::Arm7, timing: DmaTiming::VBlank },
        )
    }

    #[verifier::opaque]
    pub open spec fn vblank_mark(self) -> (NdsState, Action) {
        (self.scheduled(0, EventKind::VBlank).at(Phase::LineDone), Action::Continue)
    }

    /// The 3D engine renders its frame; the geometry FIFO may ask for more.
    #[verifier::opaque]
    pub open spec fn swap_buffers(self) -> (NdsState, Action) {
        let shared = self.shared.swapped();
        (
            self.with_shared(shared.half_mark_taken()).at(Phase::LineDone),
            if shared.gpu3d.fifo.fell_below_half {
                Action::RunGxFifoDma
            } else {
                Action::Continue
            },
        )
    }

    #[verifier::opaque]
    pub open spec fn line_done(self) -> (NdsState, Action) {
        self.scheduled(HDRAW_CYCLES_ARM7 as int, EventKind::HBlank).event_done()
    }

    #[verifier::opaque]
    pub open spec fn card(self) -> (NdsState, Action) {
        (
            self.with_shared(self.shared.card_ready()).at(Phase::CardArm7),
            Action::RunSlot1Dma { cpu: CpuId::Arm9 },
        )
    }

    #[verifier::opaque]
    pub open spec fn card_done(self) -> (NdsState, Action) {
        self.with_shared(self.shared.card_done()).event_done()
    }

    /// One step of the loop.
    pub open spec fn stepped(self, o: Outcome) -> (NdsState, Action) {
        match self.run.phase {
            Phase::Idle => (self, Action::Done),
            Phase::Head => self.head(),
            Phase::Arm9 { second } => self.arm9(second),
            Phase::Vector { second } => self.vector(second, o),
            Phase::Ran9 { second } => self.ran9(second, o),
            Phase::Swi9 { second } => self.swi9(second),
            Phase::Arm7 => self.arm7(),
            Phase::Ran7 => self.ran7(o),
            Phase::Halt7 => self.halt7(),
            Phase::Timers => self.timers(),
            Phase::Clock => self.clock(),
            Phase::Events => self.events(),
            Phase::HBlank => self.hblank(),
            Phase::Picture => self.picture(),
            Phase::Feed { line, upper } => self.feed(line, upper),
            Phase::Fed { line, upper, before_len, before_active } => self.fed(
                line,
                upper,
                before_len,
                before_active,
                o,
            ),
            Phase::ShowA { line, upper } => self.show_a(line, upper),
            Phase::ShownA { line, upper } => self.shown_a(line, upper),
            Phase::ShownB => self.shown_b(),
            Phase::HBlankDone => self.hblank_done(),
            Phase::HBlankEnd => self.hblank_end(),
            Phase::LineSync { line } => self.line_sync(line),
            Phase::VBlankArm7 => self.vblank_arm7(),
            Phase::VBlankMark => self.vblank_mark(),
            Phase::SwapBuffers => self.swap_buffers(),
            Phase::LineDone => self.line_done(),
            Phase::Card => self.card(),
            Phase::CardArm7 => (
                self.at(Phase::CardDone),
                Action::RunSlot1Dma { cpu: CpuId::Arm7 },
            ),
            Phase::CardDone => self.card_done(),
            Phase::EventDone => self.event_done(),
            Phase::DmaChosen { cpu, after } => (
                self.at(Phase::Dma { cpu, channels: o.channels, next: 0, after }),
                Action::Continue,
            ),
            Phase::Dma { cpu, channels, next, after } => self.dma(cpu, channels, next, after),
            Phase::DmaRan { cpu, channels, next, after } => self.dma_ran(
                cpu,
                channels,
                next,
                after,
                o,
            ),
        }
    }
}

/// Whether a channel is among the chosen ones, one bit each.
pub open spec fn channel_chosen(channels: u8, channel: u8) -> bool {
    if channel == 0 {
        fixed::bit(channels as int, 1)
    } else if channel == 1 {
        fixed::bit(channels as int, 2)
    } else if channel == 2 {
        fixed::bit(channels as int, 4)
    } else {
        fixed::bit(channels as int, 8)
    }
}

/// The reasons for which loading a cartridge fails.
#[derive(Debug, Clone, Copy, PartialEq, Eq)]
pub enum CartLoadError<P, D> {
    /// The header could not be read.
    Header(P),
    /// The boot segments could not be placed.
    DirectBoot(D),
}

impl<P, D> CartLoadError<P, D> {
    /// What went wrong, with the text of the cause.
    pub fn message(&self, cause: &str) -> (r: String)
        ensures
            r@ == (match self {
                CartLoadError::Header(_) => "header parse failed: "@,
                CartLoadError::DirectBoot(_) => "direct boot failed: "@,
            }) + cause@,
    {
        let what: String = match self {
            CartLoadError::Header(_) => "header parse failed: ".to_owned(),
            CartLoadError::DirectBoot(_) => "direct boot failed: ".to_owned(),
        };
        what.concat(cause)
    }
}

/// Display control without the layers that are switched off.
pub fn apply_2d_debug_disable(dispcnt: u32, disable_obj: bool, disable_bg: [bool; 4]) -> (r: u32)
    ensures
        r == masked_dispcnt(dispcnt as int, disable_obj, disable_bg),
{
    let mut d: u32 = dispcnt;
    if disable_obj {
        d = fixed::clear_bit(d, 0x1000);
    }
    if disable_bg[0] {
        d = fixed::clear_bit(d, 0x100);
    }
    if disable_bg[1] {
        d = fixed::clear_bit(d, 0x200);
    }
    if disable_bg[2] {
        d = fixed::clear_bit(d, 0x400);
    }
    if disable_bg[3] {
        d = fixed::clear_bit(d, 0x800);
    }
    d
}

/// A processor that an interrupt wakes runs on.
pub fn wake_on_irq(cpu: &mut Cpu, irq: &InterruptController)
    ensures
        *final(cpu) == woken(*old(cpu), *irq),
{
    if cpu.halted {
        let wake: bool = if cpu.intrwait_mask != 0 {
            irq.has_matching_irq(cpu.intrwait_mask)
        } else {
            irq.has_unmasked_irq()
        };
        if wake {
            cpu.halted = false;
            cpu.intrwait_mask = 0;
        }
    }
}

/// The interrupt of a DMA channel.
fn dma_source(channel: u8) -> (r: Irq)
    ensures
        r == dma_irq(channel as int),
{
    match channel {
        0 => Irq::Dma0,
        1 => Irq::Dma1,
        2 => Irq::Dma2,
        _ => Irq::Dma3,
    }
}

fn chosen(channels: u8, channel: u8) -> (r: bool)
    ensures
        r == channel_chosen(channels, channel),
{
    match channel {
        0 => fixed::has_bit(channels as u32, 1),
        1 => fixed::has_bit(channels as u32, 2),
        2 => fixed::has_bit(channels as u32, 4),
        _ => fixed::has_bit(channels as u32, 8),
    }
}

fn begin(kind: EventKind) -> (r: Phase)
    ensures
        r == first_phase(kind),
{
    match kind {
        EventKind::HBlank => Phase::HBlank,
        EventKind::HBlankEnd => Phase::HBlankEnd,
        EventKind::Slot1Done => Phase::Card,
        _ => Phase::EventDone,
    }
}

fn follow(after: After) -> (r: Phase)
    ensures
        r == phase_after(after),
{
    match after {
        After::HBlank => Phase::Picture,
        After::LineSync { line } => Phase::LineSync { line },
        After::VBlankArm9 => Phase::VBlankArm7,
        After::VBlankArm7 => Phase::VBlankMark,
    }
}

/// A processor at power-on: awake, without a data memory of its own.
pub open spec fn awake() -> Cpu {
    Cpu {
        halted: false,
        intrwait_mask: 0,
        pending_swi: None,
        dtcm: TcmRegion { base: 0, size_bytes: 0 },
    }
}

fn new_cpu() -> (r: Cpu)
    ensures
        r == awake(),
{
    Cpu {
        halted: false,
        intrwait_mask: 0,
        pending_swi: None,
        dtcm: TcmRegion { base: 0, size_bytes: 0 },
    }
}

/// A black screen.
fn new_screen() -> (r: Vec<u16>)
    ensures
        r@ == Seq::new(capture::SCREEN_PIXELS as nat, |i: int| 0u16),
{
    let mut v: Vec<u16> = Vec::with_capacity(capture::SCREEN_PIXELS);
    for i in 0..capture::SCREEN_PIXELS
        invariant
            v@ == Seq::new(i as nat, |k: int| 0u16),
    {
        v.push(0);
        assert(v@ =~= Seq::new((i + 1) as nat, |k: int| 0u16));
    }
    v
}

impl Nds {
    /// The console is well-formed.
    pub open spec fn wf(&self) -> bool {
        self@.wf() && self.shared.wf()
    }

    /// A console at power-on, with BIOS images if there are any. The first
    /// HBlank is due at the end of line 0's visible part.
    pub fn new(bios9: Option<Vec<u8>>, bios7: Option<Vec<u8>>) -> (r: Self)
        ensures
            r.wf(),
            r@.clock_ok(),
            r@.bios9 == bios9,
            r@.bios7 == bios7,
            shared::power_on(r@.shared),
            r@.scheduler.timestamp == 0,
            r@.scheduler.events == seq![
                (Event { fire_time: HDRAW_CYCLES_ARM7 as u64, kind: EventKind::HBlank }),
            ],
            r@.top == Seq::new(capture::SCREEN_PIXELS as nat, |i: int| 0u16),
            r@.bottom == Seq::new(capture::SCREEN_PIXELS as nat, |i: int| 0u16),
            r@.cpu9 == awake(),
            r@.cpu7 == awake(),
            r@.dtcm == Seq::new(0x4000, |i: int| 0u8),
            !r@.direct_boot,
            !r@.disable_obj,
            r@.disable_bg@ == seq![false, false, false, false],
            r@.run.phase == Phase::Idle,
            r@.display_runs(),
    {
        let mut dtcm: Vec<u8> = Vec::with_capacity(0x4000);
        for i in 0..0x4000usize
            invariant
                dtcm@ == Seq::new(i as nat, |k: int| 0u8),
        {
            dtcm.push(0);
            assert(dtcm@ =~= Seq::new((i + 1) as nat, |k: int| 0u8));
        }
        let mut nds = Nds {
            cpu9: new_cpu(),
            cpu7: new_cpu(),
            mem9: Arm9Memory { bios: bios9, dtcm },
            mem7: Arm7Memory { bios: bios7 },
            shared: SharedState::new(),
            scheduler: Scheduler::new(),
            framebuffer_top: new_screen(),
            framebuffer_bot: new_screen(),
            direct_boot: false,
            debug_disable_2d_obj: false,
            debug_disable_2d_bg: [false; 4],
            run: Run {
                phase: Phase::Idle,
                mode: Mode::Run,
                target: 0,
                arm9_cycles: 0,
                arm7_cycles: 0,
            },
        };
        nds.schedule_initial_events();
        proof {
            lemma_line_events_push(
                Seq::empty(),
                Event { fire_time: HDRAW_CYCLES_ARM7 as u64, kind: EventKind::HBlank },
            );
        }
        assert(nds@.disable_bg@ =~= seq![false, false, false, false]);
        assert(nds@.scheduler.events =~= seq![
            (Event { fire_time: HDRAW_CYCLES_ARM7 as u64, kind: EventKind::HBlank }),
        ]);
        nds
    }

    fn schedule_initial_events(&mut self)
        ensures
            final(self)@ == (NdsState {
                scheduler: SchedulerState {
                    events: old(self)@.scheduler.events.push(
                        Event { fire_time: HDRAW_CYCLES_ARM7 as u64, kind: EventKind::HBlank },
                    ),
                    ..old(self)@.scheduler
                },
                ..old(self)@
            }),
            final(self).shared == old(self).shared,
    {
        self.scheduler.schedule(
            Event { fire_time: HDRAW_CYCLES_ARM7 as u64, kind: EventKind::HBlank },
        );
    }

    /// Take over a cartridge after its header was read and its boot segments
    /// were placed, or pass on why that failed.
    pub fn load_cart_direct_boot<P, D>(
        &mut self,
        rom: Vec<u8>,
        header: Result<(), P>,
        boot: Result<(), D>,
    ) -> (r: Result<(), CartLoadError<P, D>>)
        ensures
            match header {
                Err(e) => r == Err::<(), CartLoadError<P, D>>(CartLoadError::Header(e)),
                Ok(_) => match boot {
                    Err(e) => r == Err::<(), CartLoadError<P, D>>(CartLoadError::DirectBoot(e)),
                    Ok(_) => r == Ok::<(), CartLoadError<P, D>>(()),
                },
            },
            r is Err ==> final(self)@ == old(self)@,
            r is Ok ==> final(self)@ == (NdsState {
                direct_boot: true,
                shared: SharedView {
                    slot1_rom: rom@,
                    slot1_romctrl: 0,
                    slot1_command: [0u8, 0, 0, 0, 0, 0, 0, 0],
                    slot1_data: Seq::empty(),
                    ..old(self)@.shared
                },
                ..old(self)@
            }),
            old(self).wf() ==> final(self).wf(),
    {
        match header {
            Err(e) => {
                return Err(CartLoadError::Header(e));
            },
            Ok(_) => {},
        }
        match boot {
            Err(e) => {
                return Err(CartLoadError::DirectBoot(e));
            },
            Ok(_) => {},
        }
        self.shared.insert_card(rom);
        self.direct_boot = true;
        Ok(())
    }

    /// Begin to run for some ARM7 cycles. Each round runs two ARM9 instructions,
    /// one ARM7 instruction, the timers, sound and the events that are due.
    pub fn run_cycles(&mut self, arm7_cycles: u64)
        requires
            old(self).wf(),
        ensures
            final(self).wf(),
            final(self)@ == (NdsState {
                run: Run {
                    phase: Phase::Head,
                    mode: Mode::Run,
                    target: fixed::min(
                        old(self)@.scheduler.timestamp + arm7_cycles,
                        u64::MAX as int,
                    ) as u64,
                    ..old(self)@.run
                },
                ..old(self)@
            }),
    {
        let now: u64 = self.scheduler.timestamp();
        self.run.target = if arm7_cycles <= u64::MAX - now {
            now + arm7_cycles
        } else {
            u64::MAX
        };
        self.run.phase = Phase::Head;
        self.run.mode = Mode::Run;
    }

    /// Begin to run for a frame.
    pub fn run_frame(&mut self)
        requires
            old(self).wf(),
        ensures
            final(self).wf(),
            final(self)@ == (NdsState {
                run: Run {
                    phase: Phase::Head,
                    mode: Mode::Run,
                    target: fixed::min(
                        old(self)@.scheduler.timestamp + CYCLES_PER_FRAME_ARM7,
                        u64::MAX as int,
                    ) as u64,
                    ..old(self)@.run
                },
                ..old(self)@
            }),
    {
        self.run_cycles(CYCLES_PER_FRAME_ARM7);
    }

    /// Begin to run one instruction on each processor, and the events that are
    /// then due.
    pub fn step_one(&mut self)
        requires
            old(self).wf(),
        ensures
            final(self).wf(),
            final(self)@ == (NdsState {
                run: Run {
                    phase: Phase::Arm9 { second: true },
                    mode: Mode::Single,
                    arm9_cycles: 0,
                    ..old(self)@.run
                },
                ..old(self)@
            }),
    {
        self.run.phase = Phase::Arm9 { second: true };
        self.run.mode = Mode::Single;
        self.run.arm9_cycles = 0;
    }

    /// Begin to dispatch one event.
    pub fn dispatch_event(&mut self, event: Event)
        requires
            old(self).wf(),
        ensures
            final(self).wf(),
            final(self)@ == (NdsState {
                run: Run {
                    phase: first_phase(event.kind),
                    mode: Mode::Dispatch,
                    ..old(self)@.run
                },
                ..old(self)@
            }),
    {
        self.run.phase = begin(event.kind);
        self.run.mode = Mode::Dispatch;
    }

    /// Update the buttons. Bit `n` low means that button `n` is held: A, B,
    /// Select, Start, right, left, up, down, R, L.
    pub fn set_keys(&mut self, keys: u16)
        requires
            old(self).wf(),
        ensures
            final(self).wf(),
            final(self)@ == old(self)@.with_shared(old(self)@.shared.keyed(keys)),
    {
        self.shared.set_keys(keys);
    }

    /// Update the extra buttons that ARM7 alone sees: bit 0 X, bit 1 Y, bit 6
    /// pen, all active low. Seven bits are kept: bit 7, the hinge, is left out.
    pub fn set_extkeys(&mut self, extkeys: u16)
        requires
            old(self).wf(),
        ensures
            final(self).wf(),
            final(self)@ == old(self)@.with_shared(
                SharedView { extkeyin: (extkeys % 0x80) as u16, ..old(self)@.shared },
            ),
    {
        self.shared.set_extkeys(extkeys);
    }

    /// Update the touchscreen.
    pub fn set_touch(&mut self, x: u16, y: u16, pen_down: bool)
        requires
            old(self).wf(),
        ensures
            final(self).wf(),
            final(self)@ == old(self)@.with_shared(old(self)@.shared.touched(x, y, pen_down)),
    {
        self.shared.set_touch(x, y, pen_down);
    }

    /// Do one step of the loop, with the outcome of the work that the step
    /// before asked for. Returns the work that is due next.
    pub fn resume(&mut self, outcome: Outcome) -> (r: Action)
        requires
            old(self).wf(),
            old(self)@.clock_ok(),
            outcome.cycles <= 0x7FFF_FFFF,
        ensures
            final(self).wf(),
            (final(self)@, r) == old(self)@.stepped(outcome),
    {
        match self.run.phase {
            Phase::Idle => Action::Done,
            Phase::Head => self.check_target(),
            Phase::Arm9 { second } => self.turn_arm9(second),
            Phase::Vector { second } => self.ack_direct_boot_arm9_irq_without_handler(
                second,
                outcome,
            ),
            Phase::Ran9 { second } => self.count_arm9(second, outcome),
            Phase::Swi9 { second } => self.take_swi9(second),
            Phase::Arm7 => self.turn_arm7(),
            Phase::Ran7 => self.count_arm7(outcome),
            Phase::Halt7 => self.halt_arm7(),
            Phase::Timers => self.tick_timers(),
            Phase::Clock => self.move_clock(),
            Phase::Events => self.take_event(),
            Phase::HBlank => self.start_hblank(),
            Phase::Picture => self.start_picture(),
            Phase::Feed { line, upper } => self.feed_main_mem_display_fifo(line, upper),
            Phase::Fed { line, upper, before_len, before_active } => self.check_fed(
                line,
                upper,
                before_len,
                before_active,
                outcome,
            ),
            Phase::ShowA { line, upper } => self.show_engine_a(line, upper),
            Phase::ShownA { line, upper } => self.capture_line(line, upper),
            Phase::ShownB => self.request_hblank(),
            Phase::HBlankDone => self.schedule_hblank_end(),
            Phase::HBlankEnd => self.start_line(),
            Phase::LineSync { line } => self.sync_line(line),
            Phase::VBlankArm7 => self.choose_vblank_dma7(),
            Phase::VBlankMark => self.schedule_vblank(),
            Phase::SwapBuffers => self.swap_3d(),
            Phase::LineDone => self.schedule_hblank(),
            Phase::Card => self.complete_slot1_transfer(),
            Phase::CardArm7 => self.go(
                Phase::CardDone,
                Action::RunSlot1Dma { cpu: CpuId::Arm7 },
            ),
            Phase::CardDone => self.finish_slot1_transfer(),
            Phase::EventDone => self.finish_event(),
            Phase::DmaChosen { cpu, after } => self.go(
                Phase::Dma { cpu, channels: outcome.channels, next: 0, after },
                Action::Continue,
            ),
            Phase::Dma { cpu, channels, next, after } => self.run_next_dma(
                cpu,
                channels,
                next,
                after,
            ),
            Phase::DmaRan { cpu, channels, next, after } => self.count_dma(
                cpu,
                channels,
                next,
                after,
                outcome,
            ),
        }
    }

    /// Go on in a phase.
    fn go(&mut self, phase: Phase, action: Action) -> (r: Action)
        requires
            old(self).wf(),
            phase_ok(phase),
            !before_first(phase),
            before_second(phase) ==> old(self)@.run.arm9_cycles <= 0x7FFF_FFFF,
        ensures
            final(self).wf(),
            (final(self)@, r) == (old(self)@.at(phase), action),
            final(self).shared == old(self).shared,
    {
        self.run.phase = phase;
        action
    }

    fn finish_event(&mut self) -> (r: Action)
        requires
            old(self).wf(),
        ensures
            final(self).wf(),
            (final(self)@, r) == old(self)@.event_done(),
    {
        proof {
            reveal(NdsState::event_done);
        }
        if self.run.mode == Mode::Dispatch {
            self.go(Phase::Idle, Action::Done)
        } else {
            self.go(Phase::Events, Action::Continue)
        }
    }

    fn check_target(&mut self) -> (r: Action)
        requires
            old(self).wf(),
        ensures
            final(self).wf(),
            (final(self)@, r) == old(self)@.head(),
    {
        proof {
            reveal(NdsState::head);
        }
        if self.scheduler.timestamp() >= self.run.target {
            self.go(Phase::Idle, Action::Done)
        } else {
            self.run.phase = Phase::Arm9 { second: false };
            self.run.arm9_cycles = 0;
            Action::Continue
        }
    }

    fn turn_arm9(&mut self, second: bool) -> (r: Action)
        requires
            old(self).wf(),
            old(self)@.run.phase == (Phase::Arm9 { second }),
        ensures
            final(self).wf(),
            (final(self)@, r) == old(self)@.arm9(second),
    {
        proof {
            reveal(NdsState::arm9);
        }
        if self.cpu9.halted {
            self.run.arm9_cycles = self.run.arm9_cycles + 1;
            self.run.phase = Phase::Swi9 { second };
            Action::Continue
        } else if self.direct_boot && self.shared.controller9().has_pending() {
            self.run.phase = Phase::Vector { second };
            Action::CheckIrqVector
        } else {
            self.run.phase = Phase::Ran9 { second };
            Action::StepCpu { cpu: CpuId::Arm9 }
        }
    }

    fn ack_direct_boot_arm9_irq_without_handler(&mut self, second: bool, outcome: Outcome) -> (r: Action)
        requires
            old(self).wf(),
            old(self)@.run.phase == (Phase::Vector { second }),
        ensures
            final(self).wf(),
            (final(self)@, r) == old(self)@.vector(second, outcome),
    {
        proof {
            reveal(NdsState::vector);
        }
        if !outcome.irq_vector && self.shared.main_ram32(0x02FF_3FFC) == 0 {
            let controller: InterruptController = self.shared.controller9();
            let pending: u32 = controller.ie & controller.iflag;
            self.set_direct_boot_arm9_irq_shadow(pending);
            self.shared.acknowledge9(pending);
        }
        self.run.phase = Phase::Ran9 { second };
        Action::StepCpu { cpu: CpuId::Arm9 }
    }

    /// Note interrupts in ARM9's data memory.
    fn set_direct_boot_arm9_irq_shadow(&mut self, pending: u32)
        requires
            old(self)@.cpu9.dtcm.size_bytes <= old(self)@.dtcm.len(),
        ensures
            final(self)@ == (NdsState {
                dtcm: noted(old(self)@.dtcm, old(self)@.cpu9.dtcm, pending),
                ..old(self)@
            }),
            final(self)@.dtcm.len() == old(self)@.dtcm.len(),
            final(self).shared == old(self).shared,
    {
        let size: u32 = self.cpu9.dtcm.size_bytes;
        if pending == 0 || size < 8 {
            return ;
        }
        let off: usize = size as usize - 8;
        let before: u32 = self.mem9.dtcm[off] as u32 + 0x100 * (self.mem9.dtcm[off + 1] as u32)
            + 0x1_0000 * (self.mem9.dtcm[off + 2] as u32) + 0x100_0000 * (self.mem9.dtcm[off
            + 3] as u32);
        let word: u32 = before | pending;
        self.mem9.dtcm[off] = (word % 0x100) as u8;
        self.mem9.dtcm[off + 1] = (word / 0x100 % 0x100) as u8;
        self.mem9.dtcm[off + 2] = (word / 0x1_0000 % 0x100) as u8;
        self.mem9.dtcm[off + 3] = (word / 0x100_0000) as u8;
    }

    fn count_arm9(&mut self, second: bool, outcome: Outcome) -> (r: Action)
        requires
            old(self).wf(),
            old(self)@.run.phase == (Phase::Ran9 { second }),
            outcome.cycles <= 0x7FFF_FFFF,
        ensures
            final(self).wf(),
            (final(self)@, r) == old(self)@.ran9(second, outcome),
    {
        proof {
            reveal(NdsState::ran9);
        }
        self.run.arm9_cycles = self.run.arm9_cycles + outcome.cycles;
        self.run.phase = Phase::Swi9 { second };
        Action::Continue
    }

    fn take_swi9(&mut self, second: bool) -> (r: Action)
        requires
            old(self).wf(),
            old(self)@.run.phase == (Phase::Swi9 { second }),
        ensures
            final(self).wf(),
            (final(self)@, r) == old(self)@.swi9(second),
    {
        proof {
            reveal(NdsState::swi9);
        }
        self.run.phase = if second {
            Phase::Arm7
        } else {
            Phase::Arm9 { second: true }
        };
        match self.cpu9.pending_swi {
            Some(number) => {
                self.cpu9.pending_swi = None;
                Action::SoftwareInterrupt { cpu: CpuId::Arm9, number, built_in: self.direct_boot }
            },
            None => Action::Continue,
        }
    }

    fn set_arm7_cycles(&mut self, cycles: u32)
        requires
            old(self).wf(),
        ensures
            final(self)@ == old(self)@.with_arm7_cycles(cycles),
            final(self).shared == old(self).shared,
    {
        self.run.arm7_cycles = cycles;
        if self.run.mode != Mode::Run {
            self.scheduler.add_cycles(cycles as u64);
        }
    }

    fn leave_arm7(&mut self)
        ensures
            final(self)@ == old(self)@.at(old(self)@.after_arm7()),
            final(self).shared == old(self).shared,
    {
        self.run.phase = if self.run.mode == Mode::Run {
            Phase::Timers
        } else {
            Phase::Clock
        };
    }

    fn turn_arm7(&mut self) -> (r: Action)
        requires
            old(self).wf(),
        ensures
            final(self).wf(),
            (final(self)@, r) == old(self)@.arm7(),
    {
        proof {
            reveal(NdsState::arm7);
        }
        if self.cpu7.halted {
            self.set_arm7_cycles(1);
            self.leave_arm7();
            Action::Continue
        } else {
            self.go(Phase::Ran7, Action::StepCpu { cpu: CpuId::Arm7 })
        }
    }

    fn count_arm7(&mut self, outcome: Outcome) -> (r: Action)
        requires
            old(self).wf(),
        ensures
            final(self).wf(),
            (final(self)@, r) == old(self)@.ran7(outcome),
    {
        proof {
            reveal(NdsState::ran7);
        }
        self.set_arm7_cycles(outcome.cycles);
        self.run.phase = Phase::Halt7;
        match self.cpu7.pending_swi {
            Some(number) => {
                self.cpu7.pending_swi = None;
                Action::SoftwareInterrupt { cpu: CpuId::Arm7, number, built_in: self.direct_boot }
            },
            None => Action::Continue,
        }
    }

    fn halt_arm7(&mut self) -> (r: Action)
        requires
            old(self).wf(),
        ensures
            final(self).wf(),
            (final(self)@, r) == old(self)@.halt7(),
    {
        proof {
            reveal(NdsState::halt7);
        }
        if self.shared.take_halt7() {
            self.cpu7.halted = true;
        }
        self.leave_arm7();
        Action::Continue
    }

    fn tick_timers(&mut self) -> (r: Action)
        requires
            old(self).wf(),
        ensures
            final(self).wf(),
            (final(self)@, r) == old(self)@.timers(),
    {
        proof {
            reveal(NdsState::timers);
        }
        let cycles: u32 = self.run.arm7_cycles;
        self.shared.tick_timers(self.run.arm9_cycles, cycles);
        self.run.phase = Phase::Clock;
        Action::MixAudio { cycles }
    }

    fn move_clock(&mut self) -> (r: Action)
        requires
            old(self).wf(),
            old(self)@.clock_ok(),
        ensures
            final(self).wf(),
            (final(self)@, r) == old(self)@.clock(),
    {
        proof {
            reveal(NdsState::clock);
        }
        if self.run.mode == Mode::Run {
            self.scheduler.add_cycles(self.run.arm7_cycles as u64);
        }
        self.pump_slot1_schedule();
        self.run.phase = Phase::Events;
        Action::Continue
    }

    /// Turn a started card transfer into its completion event.
    fn pump_slot1_schedule(&mut self)
        requires
            old(self)@.scheduler.timestamp <= 0x8000_0001_0000_0000,
            old(self)@.shared.slot1_delay_request matches Some(d) ==> d <= 0x3FFF_FFFF_FFFF_FFFF,
        ensures
            final(self)@ == old(self)@.pumped(),
            old(self).shared.wf() ==> final(self).shared.wf(),
    {
        match self.shared.take_card_delay() {
            Some(delay) => {
                self.scheduler.cancel(EventKind::Slot1Done);
                let fire_time: u64 = self.scheduler.timestamp() + delay;
                self.scheduler.schedule(Event { fire_time, kind: EventKind::Slot1Done });
            },
            None => {},
        }
    }

    fn take_event(&mut self) -> (r: Action)
        requires
            old(self).wf(),
        ensures
            final(self).wf(),
            (final(self)@, r) == old(self)@.events(),
    {
        proof {
            reveal(NdsState::events);
        }
        match self.scheduler.pop_if_ready() {
            Some(event) => self.go(begin(event.kind), Action::Continue),
            None => {
                if self.run.mode == Mode::Run {
                    self.shared.refresh_level_irqs();
                    wake_on_irq(&mut self.cpu9, &self.shared.controller9());
                    wake_on_irq(&mut self.cpu7, &self.shared.controller7());
                    self.go(Phase::Head, Action::Continue)
                } else {
                    self.go(Phase::Idle, Action::Done)
                }
            },
        }
    }

    fn start_hblank(&mut self) -> (r: Action)
        requires
            old(self).wf(),
        ensures
            final(self).wf(),
            (final(self)@, r) == old(self)@.hblank(),
    {
        proof {
            reveal(NdsState::hblank);
        }
        self.shared.enter_hblank();
        if self.shared.line() < VISIBLE_LINES {
            self.go(
                Phase::DmaChosen { cpu: CpuId::Arm9, after: After::HBlank },
                Action::ChooseDma { cpu: CpuId::Arm9, timing: DmaTiming::HBlankVisible },
            )
        } else {
            self.go(Phase::HBlankDone, Action::Continue)
        }
    }

    fn run_next_dma(&mut self, cpu: CpuId, channels: u8, next: u8, after: After) -> (r: Action)
        requires
            old(self).wf(),
        ensures
            final(self).wf(),
            (final(self)@, r) == old(self)@.dma(cpu, channels, next, after),
    {
        proof {
            reveal(NdsState::dma);
        }
        if next >= 4 {
            self.go(follow(after), Action::Continue)
        } else if chosen(channels, next) {
            self.go(
                Phase::DmaRan { cpu, channels, next, after },
                Action::RunDma { cpu, channel: next },
            )
        } else {
            self.go(Phase::Dma { cpu, channels, next: next + 1, after }, Action::Continue)
        }
    }

    fn request_dma(&mut self, cpu: CpuId, channel: u8, irq: bool)
        requires
            old(self).wf(),
        ensures
            final(self).wf(),
            final(self)@ == old(self)@.dma_requested(cpu, channel as int, irq),
    {
        if irq {
            match cpu {
                CpuId::Arm9 => self.shared.request9(dma_source(channel)),
                CpuId::Arm7 => self.shared.request7(dma_source(channel)),
            }
        }
    }

    fn count_dma(&mut self, cpu: CpuId, channels: u8, next: u8, after: After, outcome: Outcome) -> (r: Action)
        requires
            old(self).wf(),
        ensures
            final(self).wf(),
            (final(self)@, r) == old(self)@.dma_ran(cpu, channels, next, after, outcome),
    {
        proof {
            reveal(NdsState::dma_ran);
        }
        self.request_dma(cpu, next, outcome.irq);
        let following: u8 = if next < 4 {
            next + 1
        } else {
            4
        };
        self.go(Phase::Dma { cpu, channels, next: following, after }, Action::Continue)
    }

    fn start_picture(&mut self) -> (r: Action)
        requires
            old(self).wf(),
        ensures
            final(self).wf(),
            (final(self)@, r) == old(self)@.picture(),
    {
        proof {
            reveal(NdsState::picture);
        }
        let line: u16 = self.shared.line();
        let upper: bool = self.shared.engine_a_on_top();
        if line >= VISIBLE_LINES {
            self.go(Phase::HBlankDone, Action::Continue)
        } else if self.shared.dispcnt_a() / 0x1_0000 % 4 == 3
            || capture::capture_needs_main_mem_fifo(&self.shared, line) {
            self.go(Phase::Feed { line, upper }, Action::Continue)
        } else {
            self.go(Phase::ShowA { line, upper }, Action::Continue)
        }
    }

    fn feed_main_mem_display_fifo(&mut self, line: u16, upper: bool) -> (r: Action)
        requires
            old(self).wf(),
            line < 192,
        ensures
            final(self).wf(),
            (final(self)@, r) == old(self)@.feed(line, upper),
    {
        proof {
            reveal(NdsState::feed);
        }
        let len: usize = self.shared.fifo_len();
        let status: DmaStatus = self.shared.channel3();
        if len < 128 && status.active && status.display_fifo {
            self.go(
                Phase::Fed { line, upper, before_len: len, before_active: true },
                Action::RunDma { cpu: CpuId::Arm9, channel: 3 },
            )
        } else {
            self.go(Phase::ShowA { line, upper }, Action::Continue)
        }
    }

    fn check_fed(
        &mut self,
        line: u16,
        upper: bool,
        before_len: usize,
        before_active: bool,
        outcome: Outcome,
    ) -> (r: Action)
        requires
            old(self).wf(),
            line < 192,
        ensures
            final(self).wf(),
            (final(self)@, r) == old(self)@.fed(line, upper, before_len, before_active, outcome),
    {
        proof {
            reveal(NdsState::fed);
        }
        self.request_dma(CpuId::Arm9, 3, outcome.irq);
        if self.shared.fifo_len() == before_len && self.shared.channel3().active == before_active {
            self.go(Phase::ShowA { line, upper }, Action::Continue)
        } else {
            self.go(Phase::Feed { line, upper }, Action::Continue)
        }
    }

    fn show_engine_a(&mut self, line: u16, upper: bool) -> (r: Action)
        requires
            old(self).wf(),
            line < 192,
        ensures
            final(self).wf(),
            (final(self)@, r) == old(self)@.show_a(line, upper),
    {
        proof {
            reveal(NdsState::show_a);
        }
        let dispcnt: u32 = apply_2d_debug_disable(
            self.shared.dispcnt_a(),
            self.debug_disable_2d_obj,
            self.debug_disable_2d_bg,
        );
        self.go(
            Phase::ShownA { line, upper },
            Action::RenderLine { engine: EngineWhich::A, line, upper, dispcnt },
        )
    }

    fn capture_line(&mut self, line: u16, upper: bool) -> (r: Action)
        requires
            old(self).wf(),
            line < 192,
        ensures
            final(self).wf(),
            (final(self)@, r) == old(self)@.shown_a(line, upper),
    {
        proof {
            reveal(NdsState::shown_a);
        }
        let dispcnt: u32 = apply_2d_debug_disable(
            self.shared.dispcnt_b(),
            self.debug_disable_2d_obj,
            self.debug_disable_2d_bg,
        );
        if upper {
            capture::capture_display_scanline(
                &mut self.shared,
                line,
                self.framebuffer_top.as_slice(),
            );
        } else {
            capture::capture_display_scanline(
                &mut self.shared,
                line,
                self.framebuffer_bot.as_slice(),
            );
        }
        self.go(
            Phase::ShownB,
            Action::RenderLine { engine: EngineWhich::B, line, upper: !upper, dispcnt },
        )
    }

    fn request_hblank(&mut self) -> (r: Action)
        requires
            old(self).wf(),
        ensures
            final(self).wf(),
            (final(self)@, r) == old(self)@.shown_b(),
    {
        proof {
            reveal(NdsState::shown_b);
        }
        if self.shared.line() < VISIBLE_LINES {
            self.shared.request_hblank();
        }
        self.go(Phase::HBlankDone, Action::Continue)
    }

    /// Schedule an event some cycles from now.
    fn schedule_in(&mut self, delay: u32, kind: EventKind)
        requires
            old(self).wf(),
            old(self)@.clock_ok(),
        ensures
            final(self).wf(),
            final(self)@ == old(self)@.scheduled(delay as int, kind),
    {
        let fire_time: u64 = self.scheduler.timestamp() + delay as u64;
        self.scheduler.schedule(Event { fire_time, kind });
    }

    fn schedule_hblank_end(&mut self) -> (r: Action)
        requires
            old(self).wf(),
            old(self)@.clock_ok(),
        ensures
            final(self).wf(),
            (final(self)@, r) == old(self)@.hblank_done(),
    {
        proof {
            reveal(NdsState::hblank_done);
        }
        self.schedule_in(HBLANK_CYCLES_ARM7, EventKind::HBlankEnd);
        self.finish_event()
    }

    fn start_line(&mut self) -> (r: Action)
        requires
            old(self).wf(),
        ensures
            final(self).wf(),
            (final(self)@, r) == old(self)@.hblank_end(),
    {
        proof {
            reveal(NdsState::hblank_end);
        }
        self.shared.start_line();
        let line: u16 = self.shared.line();
        if line >= 2 && line <= 193 {
            self.go(
                Phase::DmaChosen { cpu: CpuId::Arm9, after: After::LineSync { line } },
                Action::ChooseDma { cpu: CpuId::Arm9, timing: DmaTiming::DisplaySync },
            )
        } else {
            self.go(Phase::LineSync { line }, Action::Continue)
        }
    }

    fn sync_line(&mut self, line: u16) -> (r: Action)
        requires
            old(self).wf(),
        ensures
            final(self).wf(),
            (final(self)@, r) == old(self)@.line_sync(line),
    {
        proof {
            reveal(NdsState::line_sync);
        }
        if line == VISIBLE_LINES {
            self.shared.enter_vblank();
            self.go(
                Phase::DmaChosen { cpu: CpuId::Arm9, after: After::VBlankArm9 },
                Action::ChooseDma { cpu: CpuId::Arm9, timing: DmaTiming::VBlank },
            )
        } else if line == 0 {
            self.shared.leave_vblank();
            self.go(Phase::SwapBuffers, Action::LatchAffine)
        } else {
            self.go(Phase::LineDone, Action::Continue)
        }
    }

    fn choose_vblank_dma7(&mut self) -> (r: Action)
        requires
            old(self).wf(),
        ensures
            final(self).wf(),
            (final(self)@, r) == old(self)@.vblank_arm7(),
    {
        proof {
            reveal(NdsState::vblank_arm7);
        }
        self.go(
            Phase::DmaChosen { cpu: CpuId::Arm7, after: After::VBlankArm7 },
            Action::ChooseDma { cpu: CpuId::Arm7, timing: DmaTiming::VBlank },
        )
    }

    fn schedule_vblank(&mut self) -> (r: Action)
        requires
            old(self).wf(),
            old(self)@.clock_ok(),
        ensures
            final(self).wf(),
            (final(self)@, r) == old(self)@.vblank_mark(),
    {
        proof {
            reveal(NdsState::vblank_mark);
        }
        self.schedule_in(0, EventKind::VBlank);
        self.go(Phase::LineDone, Action::Continue)
    }

    fn swap_3d(&mut self) -> (r: Action)
        requires
            old(self).wf(),
        ensures
            final(self).wf(),
            (final(self)@, r) == old(self)@.swap_buffers(),
    {
        proof {
            reveal(NdsState::swap_buffers);
        }
        self.shared.swap_3d();
        let more: bool = self.shared.take_half_mark();
        self.go(
            Phase::LineDone,
            if more {
                Action::RunGxFifoDma
            } else {
                Action::Continue
            },
        )
    }

    fn schedule_hblank(&mut self) -> (r: Action)
        requires
            old(self).wf(),
            old(self)@.clock_ok(),
        ensures
            final(self).wf(),
            (final(self)@, r) == old(self)@.line_done(),
    {
        proof {
            reveal(NdsState::line_done);
        }
        self.schedule_in(HDRAW_CYCLES_ARM7, EventKind::HBlank);
        self.finish_event()
    }

    fn complete_slot1_transfer(&mut self) -> (r: Action)
        requires
            old(self).wf(),
        ensures
            final(self).wf(),
            (final(self)@, r) == old(self)@.card(),
    {
        proof {
            reveal(NdsState::card);
        }
        self.shared.publish_card_data();
        self.go(Phase::CardArm7, Action::RunSlot1Dma { cpu: CpuId::Arm9 })
    }

    fn finish_slot1_transfer(&mut self) -> (r: Action)
        requires
            old(self).wf(),
        ensures
            final(self).wf(),
            (final(self)@, r) == old(self)@.card_done(),
    {
        proof {
            reveal(NdsState::card_done);
        }
        self.shared.request_card_done();
        self.finish_event()
    }
}

/// Whether an event moves the display from one half of a line to the next.
pub open spec fn is_line_event(kind: EventKind) -> bool {
    kind == EventKind::HBlank || kind == EventKind::HBlankEnd
}

/// How many of the scheduled events do.
pub open spec fn line_events(events: Seq<Event>) -> int
    decreases events.len(),
{
    if events.len() == 0 {
        0
    } else {
        line_events(events.drop_last()) + if is_line_event(events.last().kind) { 1int } else { 0 }
    }
}

/// Whether such an event is being dispatched.
pub open spec fn in_line_event(phase: Phase) -> bool {
    match phase {
        Phase::Idle | Phase::Head | Phase::Arm9 { .. } | Phase::Vector { .. } | Phase::Ran9 { .. }
        | Phase::Swi9 { .. } | Phase::Arm7 | Phase::Ran7 | Phase::Halt7 | Phase::Timers
        | Phase::Clock | Phase::Events | Phase::Card | Phase::CardArm7 | Phase::CardDone
        | Phase::EventDone => false,
        _ => true,
    }
}

impl NdsState {
    /// The display always has exactly one event to come, or in dispatch.
    pub open spec fn display_runs(self) -> bool {
        line_events(self.scheduler.events) + (if in_line_event(self.run.phase) {
            1int
        } else {
            0
        }) == 1
    }
}

proof fn lemma_line_events_push(events: Seq<Event>, e: Event)
    ensures
        line_events(events.push(e)) == line_events(events) + if is_line_event(e.kind) {
            1int
        } else {
            0
        },
{
    assert(events.push(e).drop_last() =~= events);
}

proof fn lemma_line_events_remove(events: Seq<Event>, i: int)
    requires
        0 <= i < events.len(),
    ensures
        line_events(events.remove(i)) == line_events(events) - if is_line_event(events[i].kind) {
            1int
        } else {
            0
        },
    decreases events.len(),
{
    if i == events.len() - 1 {
        assert(events.remove(i) =~= events.drop_last());
    } else {
        assert(events.remove(i).drop_last() =~= events.drop_last().remove(i));
        assert(events.remove(i).last() == events.last());
        lemma_line_events_remove(events.drop_last(), i);
    }
}

proof fn lemma_line_events_cancel(events: Seq<Event>)
    ensures
        line_events(scheduler::without_kind(events, EventKind::Slot1Done)) == line_events(events),
    decreases events.len(),
{
    if events.len() > 0 {
        lemma_line_events_cancel(events.drop_last());
        if events.last().kind != EventKind::Slot1Done {
            lemma_line_events_push(
                scheduler::without_kind(events.drop_last(), EventKind::Slot1Done),
                events.last(),
            );
        }
    }
}

proof fn lemma_display_runs_processors(s: NdsState, o: Outcome)
    requires
        s.display_runs(),
        match s.run.phase {
            Phase::Idle | Phase::Head | Phase::Arm9 { .. } | Phase::Vector { .. } | Phase::Ran9 {
                ..
            }
            | Phase::Swi9 { .. } | Phase::Arm7 | Phase::Ran7 | Phase::Halt7 | Phase::Timers => true,
            _ => false,
        },
    ensures
        s.stepped(o).0.display_runs(),
        s.stepped(o).0.run.mode == s.run.mode,
{
    reveal(NdsState::head);
    reveal(NdsState::arm9);
    reveal(NdsState::vector);
    reveal(NdsState::ran9);
    reveal(NdsState::swi9);
    reveal(NdsState::arm7);
    reveal(NdsState::ran7);
    reveal(NdsState::halt7);
    reveal(NdsState::timers);
}

proof fn lemma_display_runs_events(s: NdsState, o: Outcome)
    requires
        s.display_runs(),
        s.run.mode != Mode::Dispatch,
        match s.run.phase {
            Phase::Clock | Phase::Events | Phase::Card | Phase::CardArm7 | Phase::CardDone
            | Phase::EventDone => true,
            _ => false,
        },
    ensures
        s.stepped(o).0.display_runs(),
        s.stepped(o).0.run.mode == s.run.mode,
{
    reveal(NdsState::clock);
    reveal(NdsState::events);
    reveal(NdsState::card);
    reveal(NdsState::card_done);
    reveal(NdsState::event_done);
    let events = s.scheduler.events;
    if s.run.phase == Phase::Clock {
        lemma_line_events_cancel(events);
        if let Some(delay) = s.shared.slot1_delay_request {
            let now = s.clock().0.scheduler.timestamp;
            lemma_line_events_push(
                scheduler::without_kind(events, EventKind::Slot1Done),
                Event { fire_time: (now + delay) as u64, kind: EventKind::Slot1Done },
            );
        }
    }
    if s.run.phase == Phase::Events && s.scheduler.due() is Some {
        scheduler::law_earliest_event_fires_first(s.scheduler, 0);
        lemma_line_events_remove(events, s.scheduler.next());
    }
}

proof fn lemma_display_runs_picture(s: NdsState, o: Outcome)
    requires
        s.display_runs(),
        match s.run.phase {
            Phase::HBlank | Phase::Picture | Phase::Feed { .. } | Phase::Fed { .. }
            | Phase::ShowA { .. } | Phase::ShownA { .. } | Phase::ShownB => true,
            _ => false,
        },
    ensures
        s.stepped(o).0.display_runs(),
        s.stepped(o).0.run.mode == s.run.mode,
{
    reveal(NdsState::hblank);
    reveal(NdsState::picture);
    reveal(NdsState::feed);
    reveal(NdsState::fed);
    reveal(NdsState::show_a);
    reveal(NdsState::shown_a);
    reveal(NdsState::shown_b);
}

proof fn lemma_display_runs_sync(s: NdsState, o: Outcome)
    requires
        s.display_runs(),
        match s.run.phase {
            Phase::HBlankEnd | Phase::LineSync { .. } | Phase::VBlankArm7 | Phase::SwapBuffers
            | Phase::DmaChosen { .. } | Phase::Dma { .. } | Phase::DmaRan { .. } => true,
            _ => false,
        },
    ensures
        s.stepped(o).0.display_runs(),
        s.stepped(o).0.run.mode == s.run.mode,
{
    reveal(NdsState::hblank_end);
    reveal(NdsState::line_sync);
    reveal(NdsState::vblank_arm7);
    reveal(NdsState::swap_buffers);
    reveal(NdsState::dma);
    reveal(NdsState::dma_ran);
}

proof fn lemma_display_runs_schedule(s: NdsState, o: Outcome)
    requires
        s.display_runs(),
        s.run.mode != Mode::Dispatch,
        match s.run.phase {
            Phase::HBlankDone | Phase::VBlankMark | Phase::LineDone => true,
            _ => false,
        },
    ensures
        s.stepped(o).0.display_runs(),
        s.stepped(o).0.run.mode == s.run.mode,
{
    reveal(NdsState::hblank_done);
    reveal(NdsState::vblank_mark);
    reveal(NdsState::line_done);
    reveal(NdsState::event_done);
    let events = s.scheduler.events;
    let now = s.scheduler.timestamp;
    lemma_line_events_push(
        events,
        Event { fire_time: (now + HBLANK_CYCLES_ARM7) as u64, kind: EventKind::HBlankEnd },
    );
    lemma_line_events_push(
        events,
        Event { fire_time: (now + HDRAW_CYCLES_ARM7) as u64, kind: EventKind::HBlank },
    );
    lemma_line_events_push(
        events,
        Event { fire_time: (now + 0) as u64, kind: EventKind::VBlank },
    );
}

/// Whatever the loop does and whatever comes of the outside work, the display
/// always has exactly one event to come or in dispatch: it never stops and never
/// runs twice.
pub proof fn law_display_keeps_running(s: NdsState, o: Outcome)
    requires
        s.display_runs(),
        s.run.mode != Mode::Dispatch,
    ensures
        s.stepped(o).0.display_runs(),
        s.stepped(o).0.run.mode != Mode::Dispatch,
{
    match s.run.phase {
        Phase::Idle | Phase::Head | Phase::Arm9 { .. } | Phase::Vector { .. } | Phase::Ran9 { .. }
        | Phase::Swi9 { .. } | Phase::Arm7 | Phase::Ran7 | Phase::Halt7 | Phase::Timers => {
            lemma_display_runs_processors(s, o);
        },
        Phase::Clock | Phase::Events | Phase::Card | Phase::CardArm7 | Phase::CardDone
        | Phase::EventDone => {
            lemma_display_runs_events(s, o);
        },
        Phase::HBlankDone | Phase::VBlankMark | Phase::LineDone => {
            lemma_display_runs_schedule(s, o);
        },
        Phase::HBlank | Phase::Picture | Phase::Feed { .. } | Phase::Fed { .. }
        | Phase::ShowA { .. } | Phase::ShownA { .. } | Phase::ShownB => {
            lemma_display_runs_picture(s, o);
        },
        _ => {
            lemma_display_runs_sync(s, o);
        },
    }
}

/// The place of a phase in a round: ARM9's two turns, ARM7's turn, timers, clock,
/// and the events.
pub open spec fn place(phase: Phase) -> int {
    match phase {
        Phase::Head => 0,
        Phase::Arm9 { second } => if second { 5 } else { 1 },
        Phase::Vector { second } => if second { 6 } else { 2 },
        Phase::Ran9 { second } => if second { 7 } else { 3 },
        Phase::Swi9 { second } => if second { 8 } else { 4 },
        Phase::Arm7 => 9,
        Phase::Ran7 => 10,
        Phase::Halt7 => 11,
        Phase::Timers => 12,
        Phase::Clock => 13,
        Phase::Idle => 15,
        _ => 14,
    }
}

/// What a step of a run does to its place in the round and to its time.
pub open spec fn moved_on(s: NdsState, t: NdsState, action: Action) -> bool {
    let (from, to) = (place(s.run.phase), place(t.run.phase));
    &&& t.run.mode == s.run.mode
    &&& t.run.target == s.run.target
    &&& t.scheduler.timestamp == s.scheduler.timestamp + if s.run.phase == Phase::Clock {
        s.run.arm7_cycles as int
    } else {
        0
    }
    &&& from == 0 ==> to == if s.scheduler.timestamp >= s.run.target { 15int } else { 1 }
    &&& 1 <= from <= 4 ==> from < to <= 5
    &&& 5 <= from <= 8 ==> from < to <= 9
    &&& 9 <= from <= 13 ==> from < to <= 14
    &&& from == 14 ==> to == 14 || (s.run.phase == Phase::Events && to == 0)
    &&& action == (Action::StepCpu { cpu: CpuId::Arm9 }) <==> to == 3 || to == 7
    &&& action == (Action::StepCpu { cpu: CpuId::Arm7 }) <==> to == 10
    &&& action == Action::Done <==> to == 15
}

proof fn lemma_moved_on_processors(s: NdsState, o: Outcome)
    requires
        s.clock_ok(),
        s.run.mode == Mode::Run,
        match s.run.phase {
            Phase::Head
            | Phase::Arm9 { .. }
            | Phase::Vector { .. }
            | Phase::Ran9 { .. }
            | Phase::Swi9 { .. } => true,
            _ => false,
        },
    ensures
        moved_on(s, s.stepped(o).0, s.stepped(o).1),
{
    match s.run.phase {
        Phase::Head => {
            reveal(NdsState::head);
        },
        Phase::Arm9 { .. } => {
            reveal(NdsState::arm9);
        },
        Phase::Vector { .. } => {
            reveal(NdsState::vector);
        },
        Phase::Ran9 { .. } => {
            reveal(NdsState::ran9);
        },
        Phase::Swi9 { .. } => {
            reveal(NdsState::swi9);
        },
        _ => {},
    }
}

proof fn lemma_moved_on_round(s: NdsState, o: Outcome)
    requires
        s.clock_ok(),
        s.run.mode == Mode::Run,
        match s.run.phase {
            Phase::Arm7
            | Phase::Ran7
            | Phase::Halt7
            | Phase::Timers
            | Phase::Clock => true,
            _ => false,
        },
    ensures
        moved_on(s, s.stepped(o).0, s.stepped(o).1),
{
    match s.run.phase {
        Phase::Arm7 => {
            reveal(NdsState::arm7);
        },
        Phase::Ran7 => {
            reveal(NdsState::ran7);
        },
        Phase::Halt7 => {
            reveal(NdsState::halt7);
        },
        Phase::Timers => {
            reveal(NdsState::timers);
        },
        Phase::Clock => {
            reveal(NdsState::clock);
        },
        _ => {},
    }
}

proof fn lemma_moved_on_events(s: NdsState, o: Outcome)
    requires
        s.clock_ok(),
        s.run.mode == Mode::Run,
        match s.run.phase {
            Phase::Events
            | Phase::Card
            | Phase::CardArm7
            | Phase::CardDone
            | Phase::EventDone => true,
            _ => false,
        },
    ensures
        moved_on(s, s.stepped(o).0, s.stepped(o).1),
{
    match s.run.phase {
        Phase::Events => {
            reveal(NdsState::events);
        },
        Phase::Card => {
            reveal(NdsState::card);
        },
        Phase::CardDone => {
            reveal(NdsState::card_done);
            reveal(NdsState::event_done);
        },
        Phase::EventDone => {
            reveal(NdsState::event_done);
        },
        _ => {},
    }
}

proof fn lemma_moved_on_picture(s: NdsState, o: Outcome)
    requires
        s.clock_ok(),
        s.run.mode == Mode::Run,
        match s.run.phase {
            Phase::HBlank
            | Phase::Picture
            | Phase::Feed { .. }
            | Phase::Fed { .. }
            | Phase::ShowA { .. }
            | Phase::ShownA { .. }
            | Phase::ShownB => true,
            _ => false,
        },
    ensures
        moved_on(s, s.stepped(o).0, s.stepped(o).1),
{
    match s.run.phase {
        Phase::HBlank => {
            reveal(NdsState::hblank);
        },
        Phase::Picture => {
            reveal(NdsState::picture);
        },
        Phase::Feed { .. } => {
            reveal(NdsState::feed);
        },
        Phase::Fed { .. } => {
            reveal(NdsState::fed);
        },
        Phase::ShowA { .. } => {
            reveal(NdsState::show_a);
        },
        Phase::ShownA { .. } => {
            reveal(NdsState::shown_a);
        },
        Phase::ShownB => {
            reveal(NdsState::shown_b);
        },
        _ => {},
    }
}

proof fn lemma_moved_on_sync(s: NdsState, o: Outcome)
    requires
        s.clock_ok(),
        s.run.mode == Mode::Run,
        match s.run.phase {
            Phase::HBlankEnd
            | Phase::LineSync { .. }
            | Phase::VBlankArm7
            | Phase::SwapBuffers
            | Phase::DmaChosen { .. }
            | Phase::Dma { .. }
            | Phase::DmaRan { .. } => true,
            _ => false,
        },
    ensures
        moved_on(s, s.stepped(o).0, s.stepped(o).1),
{
    match s.run.phase {
        Phase::HBlankEnd => {
            reveal(NdsState::hblank_end);
        },
        Phase::LineSync { .. } => {
            reveal(NdsState::line_sync);
        },
        Phase::VBlankArm7 => {
            reveal(NdsState::vblank_arm7);
        },
        Phase::SwapBuffers => {
            reveal(NdsState::swap_buffers);
        },
        Phase::Dma { .. } => {
            reveal(NdsState::dma);
        },
        Phase::DmaRan { .. } => {
            reveal(NdsState::dma_ran);
        },
        _ => {},
    }
}

proof fn lemma_moved_on_schedule(s: NdsState, o: Outcome)
    requires
        s.clock_ok(),
        s.run.mode == Mode::Run,
        match s.run.phase {
            Phase::HBlankDone
            | Phase::VBlankMark
            | Phase::LineDone => true,
            _ => false,
        },
    ensures
        moved_on(s, s.stepped(o).0, s.stepped(o).1),
{
    match s.run.phase {
        Phase::HBlankDone => {
            reveal(NdsState::hblank_done);
            reveal(NdsState::event_done);
        },
        Phase::VBlankMark => {
            reveal(NdsState::vblank_mark);
        },
        Phase::LineDone => {
            reveal(NdsState::line_done);
            reveal(NdsState::event_done);
        },
        _ => {},
    }
}

/// The processors run in lockstep. A round gives ARM9 two turns and then ARM7
/// one, in this order and each once; what a turn asks for is one instruction of
/// its own processor. Then timers and clock follow, and after the events that are
/// due the next round begins. Time moves on only with ARM7's cycles, and a run is
/// over at the start of the first round at or past its target, never before.
pub proof fn law_lockstep(s: NdsState, o: Outcome)
    requires
        s.clock_ok(),
        s.run.mode == Mode::Run,
        s.run.phase != Phase::Idle,
    ensures
        moved_on(s, s.stepped(o).0, s.stepped(o).1),
{
    match s.run.phase {
        Phase::Head
        | Phase::Arm9 { .. }
        | Phase::Vector { .. }
        | Phase::Ran9 { .. }
        | Phase::Swi9 { .. } => {
            lemma_moved_on_processors(s, o);
        },
        Phase::Arm7
        | Phase::Ran7
        | Phase::Halt7
        | Phase::Timers
        | Phase::Clock => {
            lemma_moved_on_round(s, o);
        },
        Phase::Events
        | Phase::Card
        | Phase::CardArm7
        | Phase::CardDone
        | Phase::EventDone => {
            lemma_moved_on_events(s, o);
        },
        Phase::HBlank
        | Phase::Picture
        | Phase::Feed { .. }
        | Phase::Fed { .. }
        | Phase::ShowA { .. }
        | Phase::ShownA { .. }
        | Phase::ShownB => {
            lemma_moved_on_picture(s, o);
        },
        Phase::HBlankEnd
        | Phase::LineSync { .. }
        | Phase::VBlankArm7
        | Phase::SwapBuffers
        | Phase::DmaChosen { .. }
        | Phase::Dma { .. }
        | Phase::DmaRan { .. } => {
            lemma_moved_on_sync(s, o);
        },
        _ => {
            lemma_moved_on_schedule(s, o);
        },
    }
}

/// A line takes its visible part and its HBlank: the one schedules the other.
pub proof fn law_line_schedule(s: NdsState)
    ensures
        s.hblank_done().0.scheduler.events == s.scheduler.events.push(
            Event {
                fire_time: (s.scheduler.timestamp + HBLANK_CYCLES_ARM7) as u64,
                kind: EventKind::HBlankEnd,
            },
        ),
        s.line_done().0.scheduler.events == s.scheduler.events.push(
            Event {
                fire_time: (s.scheduler.timestamp + HDRAW_CYCLES_ARM7) as u64,
                kind: EventKind::HBlank,
            },
        ),
{
    reveal(NdsState::hblank_done);
    reveal(NdsState::line_done);
    reveal(NdsState::event_done);
}

/// An enabled interrupt ends a halt whatever the master enable says; a processor
/// that waits for certain interrupts sleeps on through all others, and one that
/// wakes waits for none.
pub proof fn law_halt_and_wake(cpu: Cpu, irq: InterruptController, ime: bool)
    requires
        cpu.halted,
    ensures
        woken(cpu, irq) == woken(cpu, InterruptController { ime, ..irq }),
        cpu.intrwait_mask == 0 ==> woken(cpu, irq).halted == (irq.ie & irq.iflag == 0),
        cpu.intrwait_mask != 0 ==> woken(cpu, irq).halted == (irq.ie & irq.iflag
            & cpu.intrwait_mask == 0),
        !woken(cpu, irq).halted ==> woken(cpu, irq).intrwait_mask == 0,
        woken(cpu, irq).halted ==> woken(cpu, irq) == cpu,
{
}

/// The two engines of a line show on opposite screens, as the power control says
/// when the line's picture begins, and the capture takes engine A's screen.
pub proof fn law_engines_on_opposite_screens(s: NdsState, line: u16, upper: bool)
    ensures
        s.picture().0.run.phase matches Phase::Feed { upper: u, .. } ==> u == s.a_on_top(),
        s.picture().0.run.phase matches Phase::ShowA { upper: u, .. } ==> u == s.a_on_top(),
        s.show_a(line, upper).0.run.phase == (Phase::ShownA { line, upper }),
        match (s.show_a(line, upper).1, s.shown_a(line, upper).1) {
            (
                Action::RenderLine { engine: a, line: la, upper: ua, dispcnt: da },
                Action::RenderLine { engine: b, line: lb, upper: ub, dispcnt: db },
            ) => a == EngineWhich::A && b == EngineWhich::B && la == line && lb == line && ua
                == upper && ub != upper,
            _ => false,
        },
        s.shown_a(line, upper).0.shared == s.shared.scanline_captured(
            line as int,
            s.screen(upper),
        ),
{
    reveal(NdsState::picture);
    reveal(NdsState::show_a);
    reveal(NdsState::shown_a);
}

/// ARM9 has two turns for each one of ARM7: after its first it has a second, after that
/// ARM7 follows. A turn adds the cycles of its instruction, a halted processor's one
/// cycle.
pub proof fn law_two_turns_for_one(s: NdsState, o: Outcome, second: bool)
    ensures
        s.run.phase == (Phase::Swi9 { second }) ==> s.stepped(o).0.run.phase == if second {
            Phase::Arm7
        } else {
            Phase::Arm9 { second: true }
        },
        s.run.phase == (Phase::Ran9 { second }) ==> {
            &&& s.stepped(o).0.run.phase == (Phase::Swi9 { second })
            &&& s.stepped(o).0.run.arm9_cycles == (s.run.arm9_cycles + o.cycles) as u32
        },
        s.run.phase == (Phase::Arm9 { second }) && s.cpu9.halted ==> {
            &&& s.stepped(o).0.run.phase == (Phase::Swi9 { second })
            &&& s.stepped(o).0.run.arm9_cycles == (s.run.arm9_cycles + 1) as u32
            &&& s.stepped(o).1 == Action::Continue
        },
        s.run.phase == (Phase::Arm9 { second }) && !s.cpu9.halted && !s.direct_boot ==> {
            &&& s.stepped(o).0.run.phase == (Phase::Ran9 { second })
            &&& s.stepped(o).1 == (Action::StepCpu { cpu: CpuId::Arm9 })
        },
        s.run.phase == Phase::Head && s.scheduler.timestamp < s.run.target ==> {
            &&& s.stepped(o).0.run.phase == (Phase::Arm9 { second: false })
            &&& s.stepped(o).0.run.arm9_cycles == 0
        },
        s.run.phase == Phase::Head && s.scheduler.timestamp >= s.run.target ==> s.stepped(o).1
            == Action::Done,
{
    reveal(NdsState::swi9);
    reveal(NdsState::ran9);
    reveal(NdsState::arm9);
    reveal(NdsState::head);
}

/// ARM7's turn: one cycle while it is halted, otherwise an instruction, whose cycles are
/// counted; a requested halt takes hold after it and is then forgotten.
pub proof fn law_arm7_turn(s: NdsState, o: Outcome)
    requires
        s.run.mode == Mode::Run,
    ensures
        s.run.phase == Phase::Arm7 && s.cpu7.halted ==> {
            &&& s.stepped(o).0.run.phase == Phase::Timers
            &&& s.stepped(o).0.run.arm7_cycles == 1
        },
        s.run.phase == Phase::Arm7 && !s.cpu7.halted ==> {
            &&& s.stepped(o).0.run.phase == Phase::Ran7
            &&& s.stepped(o).1 == (Action::StepCpu { cpu: CpuId::Arm7 })
        },
        s.run.phase == Phase::Ran7 ==> {
            &&& s.stepped(o).0.run.phase == Phase::Halt7
            &&& s.stepped(o).0.run.arm7_cycles == o.cycles
            &&& s.stepped(o).0.cpu7.pending_swi is None
        },
        s.run.phase == Phase::Halt7 ==> {
            &&& s.stepped(o).0.cpu7.halted == (s.cpu7.halted || s.shared.halt7_requested)
            &&& !s.stepped(o).0.shared.halt7_requested
            &&& s.stepped(o).0.run.phase == Phase::Timers
        },
{
    reveal(NdsState::arm7);
    reveal(NdsState::ran7);
    reveal(NdsState::halt7);
}

/// After both had their turns, each CPU's timers tick by its own cycles, sound is mixed
/// for ARM7's, and time moves on by ARM7's.
pub proof fn law_round_moves_time(s: NdsState, o: Outcome)
    requires
        s.run.mode == Mode::Run,
    ensures
        s.run.phase == Phase::Timers ==> {
            &&& s.stepped(o).0.shared == s.shared.ticked(
                s.run.arm9_cycles as int,
                s.run.arm7_cycles as int,
            )
            &&& s.stepped(o).1 == (Action::MixAudio { cycles: s.run.arm7_cycles })
            &&& s.stepped(o).0.run.phase == Phase::Clock
            &&& s.stepped(o).0.scheduler == s.scheduler
        },
        s.run.phase == Phase::Clock && s.shared.slot1_delay_request is None
            && s.scheduler.timestamp + s.run.arm7_cycles <= u64::MAX ==> {
            &&& s.stepped(o).0.scheduler.timestamp == s.scheduler.timestamp + s.run.arm7_cycles
            &&& s.stepped(o).0.scheduler.events == s.scheduler.events
            &&& s.stepped(o).0.run.phase == Phase::Events
        },
{
    reveal(NdsState::timers);
    reveal(NdsState::clock);
}

/// A card transfer that was asked for is due after its delay, in place of an earlier one.
pub proof fn law_card_delay(s: NdsState, delay: u64)
    requires
        s.shared.slot1_delay_request == Some(delay),
        s.scheduler.timestamp + delay <= u64::MAX,
    ensures
        ({
            let after = s.pumped();
            let e = after.scheduler.events.last();
            &&& after.shared.slot1_delay_request is None
            &&& e.kind == EventKind::Slot1Done
            &&& e.fire_time == s.scheduler.timestamp + delay
            &&& after.scheduler.events.drop_last() == scheduler::without_kind(
                s.scheduler.events,
                EventKind::Slot1Done,
            )
            &&& after.scheduler.timestamp == s.scheduler.timestamp
        }),
{
    assert(s.pumped().scheduler.events.drop_last() =~= scheduler::without_kind(
        s.scheduler.events,
        EventKind::Slot1Done,
    ));
}

/// The earliest due event is taken and begins; where none is due, the round ends with
/// the level-triggered interrupts and the wake check of both processors.
pub proof fn law_events_begin(s: NdsState, o: Outcome)
    requires
        s.run.phase == Phase::Events,
    ensures
        s.scheduler.due() matches Some(e) ==> {
            let after = s.stepped(o).0;
            &&& after.scheduler == s.scheduler.taken()
            &&& e.kind == EventKind::HBlank ==> after.run.phase == Phase::HBlank
            &&& e.kind == EventKind::HBlankEnd ==> after.run.phase == Phase::HBlankEnd
            &&& e.kind == EventKind::Slot1Done ==> after.run.phase == Phase::Card
            &&& e.kind == EventKind::VBlank ==> after.run.phase == Phase::EventDone
            &&& after.shared == s.shared
        },
        s.scheduler.due() is None && s.run.mode == Mode::Run ==> {
            let after = s.stepped(o).0;
            &&& after.run.phase == Phase::Head
            &&& after.shared == s.shared.levels_requested()
            &&& after.cpu9 == woken(s.cpu9, after.shared.irq9)
            &&& after.cpu7 == woken(s.cpu7, after.shared.irq7)
        },
{
    reveal(NdsState::events);
}

/// Where the visible part of a line ends: on lines 0 to 191 ARM9's HBlank DMA runs, then
/// the picture is drawn, then the interrupts come; on the others only the status shows
/// it.
pub proof fn law_line_end(s: NdsState, o: Outcome)
    ensures
        s.run.phase == Phase::HBlank && s.shared.vcount < 192 ==> {
            &&& s.stepped(o).1 == (Action::ChooseDma {
                cpu: CpuId::Arm9,
                timing: DmaTiming::HBlankVisible,
            })
            &&& s.stepped(o).0.shared == s.shared.in_hblank()
        },
        s.run.phase == Phase::HBlank && s.shared.vcount >= 192 ==> {
            &&& s.stepped(o).1 == Action::Continue
            &&& s.stepped(o).0.shared == s.shared.in_hblank()
            &&& s.stepped(o).0.run.phase == Phase::HBlankDone
        },
        phase_after(After::HBlank) == Phase::Picture,
        s.run.phase == Phase::ShownB && s.shared.vcount < 192 ==> s.stepped(o).0.shared
            == s.shared.hblank_requested(),
{
    reveal(NdsState::hblank);
    reveal(NdsState::shown_b);
}

/// Where a line begins: the counter moves on, display-sync DMA runs on lines 2 to 193,
/// VBlank begins with line 192, for ARM9's DMA before ARM7's, and ends with line 0, when
/// the 3D engine renders its frame.
pub proof fn law_line_start(s: NdsState, o: Outcome, line: u16)
    ensures
        s.run.phase == Phase::HBlankEnd ==> {
            let after = s.stepped(o);
            let next = s.shared.next_line().vcount;
            &&& after.0.shared == s.shared.next_line()
            &&& 2 <= next <= 193 ==> after.1 == (Action::ChooseDma {
                cpu: CpuId::Arm9,
                timing: DmaTiming::DisplaySync,
            })
            &&& next < 2 || next > 193 ==> after.0.run.phase == (Phase::LineSync { line: next })
        },
        phase_after(After::LineSync { line }) == (Phase::LineSync { line }),
        s.run.phase == (Phase::LineSync { line }) ==> {
            let after = s.stepped(o);
            &&& line == 192 ==> after.0.shared == s.shared.in_vblank() && after.1
                == (Action::ChooseDma { cpu: CpuId::Arm9, timing: DmaTiming::VBlank })
            &&& line == 0 ==> after.0.shared == s.shared.vblank_ended() && after.0.run.phase
                == Phase::SwapBuffers && after.1 == Action::LatchAffine
            &&& line != 0 && line != 192 ==> after.0.shared == s.shared && after.0.run.phase
                == Phase::LineDone
        },
        phase_after(After::VBlankArm9) == Phase::VBlankArm7,
        s.run.phase == Phase::VBlankArm7 ==> s.stepped(o).1 == (Action::ChooseDma {
            cpu: CpuId::Arm7,
            timing: DmaTiming::VBlank,
        }),
        s.run.phase == Phase::SwapBuffers ==> s.stepped(o).0.shared
            == s.shared.swapped().half_mark_taken(),
{
    reveal(NdsState::hblank_end);
    reveal(NdsState::line_sync);
    reveal(NdsState::vblank_arm7);
    reveal(NdsState::swap_buffers);
}

/// DMA goes through the channels in order and runs those that were chosen, bit 0 of the
/// choice for channel 0; a channel that asks for its interrupt raises the one of its
/// number, bit 8 for channel 0, on its own processor.
pub proof fn law_dma_round(s: NdsState, o: Outcome, cpu: CpuId, channels: u8, next: u8, after: After)
    ensures
        s.run.phase == (Phase::Dma { cpu, channels, next, after }) ==> {
            let out = s.stepped(o);
            let chosen = (next == 0 && channels % 2 == 1) || (next == 1 && channels / 2 % 2 == 1)
                || (next == 2 && channels / 4 % 2 == 1) || (next == 3 && channels / 8 % 2 == 1);
            &&& next >= 4 ==> out.0.run.phase == phase_after(after)
            &&& next < 4 && chosen ==> out.1 == (Action::RunDma { cpu, channel: next })
            &&& next < 4 && !chosen ==> out.0.run.phase == (Phase::Dma {
                cpu,
                channels,
                next: (next + 1) as u8,
                after,
            }) && out.1 == Action::Continue
            &&& out.0.shared == s.shared
        },
        s.run.phase == (Phase::DmaRan { cpu, channels, next, after }) && next < 4 ==> {
            let out = s.stepped(o).0;
            let m = if next == 0 {
                0x100u32
            } else if next == 1 {
                0x200
            } else if next == 2 {
                0x400
            } else {
                0x800
            };
            &&& out.run.phase == (Phase::Dma { cpu, channels, next: (next + 1) as u8, after })
            &&& out.shared.irq9.iflag == if o.irq && cpu == CpuId::Arm9 {
                s.shared.irq9.iflag | m
            } else {
                s.shared.irq9.iflag
            }
            &&& out.shared.irq7.iflag == if o.irq && cpu == CpuId::Arm7 {
                s.shared.irq7.iflag | m
            } else {
                s.shared.irq7.iflag
            }
        },
{
    reveal(NdsState::dma);
    reveal(NdsState::dma_ran);
}

/// The picture of a line is drawn for engine A first; where engine A shows the FIFO, or
/// a capture reads it, the FIFO is fed before, up to 128 words and as long as channel 3
/// of ARM9's DMA serves the display.
pub proof fn law_picture_feeds_display(s: NdsState, o: Outcome, line: u16, upper: bool)
    ensures
        s.run.phase == Phase::Picture && s.shared.vcount < 192 ==> {
            let after = s.stepped(o).0;
            let fifo = s.shared.engine_a.dispcnt as int / 0x1_0000 % 4 == 3
                || s.shared.capture_wants_fifo(s.shared.vcount as int);
            let top = s.shared.powcnt1 / 0x8000 == 1;
            after.run.phase == if fifo {
                Phase::Feed { line: s.shared.vcount, upper: top }
            } else {
                Phase::ShowA { line: s.shared.vcount, upper: top }
            }
        },
        s.run.phase == (Phase::Feed { line, upper }) ==> {
            let needs = s.shared.disp_mmem_fifo.len() < 128 && s.shared.dma9_channel3.active
                && s.shared.dma9_channel3.display_fifo;
            &&& needs ==> s.stepped(o).1 == (Action::RunDma { cpu: CpuId::Arm9, channel: 3 })
            &&& !needs ==> s.stepped(o).0.run.phase == (Phase::ShowA { line, upper })
        },
{
    reveal(NdsState::picture);
    reveal(NdsState::feed);
}

/// Layers switched off for debugging disappear from the display control: bit 12 for the
/// objects, bits 8 to 11 for the backgrounds, and no other bit.
pub proof fn law_layers_switched_off(dispcnt: u32, obj: bool, bg: [bool; 4])
    ensures
        ({
            let d = dispcnt as int;
            let m = masked_dispcnt(d, obj, bg);
            &&& m % 0x100 == d % 0x100
            &&& m / 0x2000 == d / 0x2000
            &&& (m / 0x1000 % 2 == 1) == (d / 0x1000 % 2 == 1 && !obj)
            &&& (m / 0x100 % 2 == 1) == (d / 0x100 % 2 == 1 && !bg[0])
            &&& (m / 0x200 % 2 == 1) == (d / 0x200 % 2 == 1 && !bg[1])
            &&& (m / 0x400 % 2 == 1) == (d / 0x400 % 2 == 1 && !bg[2])
            &&& (m / 0x800 % 2 == 1) == (d / 0x800 % 2 == 1 && !bg[3])
        }),
{
    let d = dispcnt as int;
    let d0 = if obj { fixed::without_bit(d, 0x1000) } else { d };
    let d1 = if bg[0] { fixed::without_bit(d0, 0x100) } else { d0 };
    let d2 = if bg[1] { fixed::without_bit(d1, 0x200) } else { d1 };
    let d3 = if bg[2] { fixed::without_bit(d2, 0x400) } else { d2 };
    lemma_layer_bits(d, 0x1000);
    lemma_layer_bits(d0, 0x100);
    lemma_layer_bits(d1, 0x200);
    lemma_layer_bits(d2, 0x400);
    lemma_layer_bits(d3, 0x800);
}

/// Clearing one of bits 8 to 12 leaves the others and the rest of the number.
proof fn lemma_layer_bits(d: int, weight: int)
    requires
        0 <= d,
        weight == 0x100 || weight == 0x200 || weight == 0x400 || weight == 0x800 || weight
            == 0x1000,
    ensures
        ({
            let m = fixed::without_bit(d, weight);
            &&& 0 <= m
            &&& m / weight % 2 == 0
            &&& m % 0x100 == d % 0x100
            &&& m / 0x2000 == d / 0x2000
            &&& weight != 0x100 ==> m / 0x100 % 2 == d / 0x100 % 2
            &&& weight != 0x200 ==> m / 0x200 % 2 == d / 0x200 % 2
            &&& weight != 0x400 ==> m / 0x400 % 2 == d / 0x400 % 2
            &&& weight != 0x800 ==> m / 0x800 % 2 == d / 0x800 % 2
            &&& weight != 0x1000 ==> m / 0x1000 % 2 == d / 0x1000 % 2
        }),
{
    let (a, h) = (d % 0x100, d / 0x100);
    let (b0, h1) = (h % 2, h / 2);
    let (b1, h2) = (h1 % 2, h1 / 2);
    let (b2, h3) = (h2 % 2, h2 / 2);
    let (b3, h4) = (h3 % 2, h3 / 2);
    let (b4, h5) = (h4 % 2, h4 / 2);
    lemma_layer_word(a, b0, b1, b2, b3, b4, h5);
    if fixed::bit(d, weight) {
        lemma_layer_word(
            a,
            if weight == 0x100 { 0 } else { b0 },
            if weight == 0x200 { 0 } else { b1 },
            if weight == 0x400 { 0 } else { b2 },
            if weight == 0x800 { 0 } else { b3 },
            if weight == 0x1000 { 0 } else { b4 },
            h5,
        );
    }
}

proof fn lemma_layer_word(a: int, b0: int, b1: int, b2: int, b3: int, b4: int, h: int)
    requires
        0 <= a < 0x100,
        0 <= b0 < 2,
        0 <= b1 < 2,
        0 <= b2 < 2,
        0 <= b3 < 2,
        0 <= b4 < 2,
        0 <= h,
    ensures
        ({
            let d = a + 0x100 * b0 + 0x200 * b1 + 0x400 * b2 + 0x800 * b3 + 0x1000 * b4 + 0x2000 * h;
            &&& d % 0x100 == a
            &&& d / 0x100 % 2 == b0
            &&& d / 0x200 % 2 == b1
            &&& d / 0x400 % 2 == b2
            &&& d / 0x800 % 2 == b3
            &&& d / 0x1000 % 2 == b4
            &&& d / 0x2000 == h
        }),
{
    let h4 = b4 + 2 * h;
    let h3 = b3 + 2 * h4;
    let h2 = b2 + 2 * h3;
    let h1 = b1 + 2 * h2;
    let h0 = b0 + 2 * h1;
    let d = a + 0x100 * h0;
    fixed::lemma_low_field(d, a, h0, 0x100);
    fixed::lemma_low_field(h0, b0, h1, 2);
    fixed::lemma_low_field(h1, b1, h2, 2);
    fixed::lemma_low_field(h2, b2, h3, 2);
    fixed::lemma_low_field(h3, b3, h4, 2);
    fixed::lemma_low_field(h4, b4, h, 2);
    vstd::arithmetic::div_mod::lemma_div_denominator(d, 0x100, 2);
    vstd::arithmetic::div_mod::lemma_div_denominator(d, 0x200, 2);
    vstd::arithmetic::div_mod::lemma_div_denominator(d, 0x400, 2);
    vstd::arithmetic::div_mod::lemma_div_denominator(d, 0x800, 2);
    vstd::arithmetic::div_mod::lemma_div_denominator(d, 0x1000, 2);
}

/// Interrupts that a direct boot notes are added to the last but one word of ARM9's data
/// memory; the rest of it stays.
pub proof fn law_interrupts_noted(dtcm: Seq<u8>, region: TcmRegion, pending: u32, i: int)
    requires
        pending != 0,
        8 <= region.size_bytes <= dtcm.len(),
        0 <= i < dtcm.len(),
    ensures
        ({
            let off = region.size_bytes - 8;
            let after = noted(dtcm, region, pending);
            &&& after.len() == dtcm.len()
            &&& word_at(after, off) == (word_at(dtcm, off) as u32 | pending)
            &&& !(off <= i < off + 4) ==> after[i] == dtcm[i]
        }),
{
    let off = region.size_bytes - 8;
    let w = word_at(dtcm, off) as u32 | pending;
    let x = w as int;
    assert(x / 0x100 / 0x100 == x / 0x1_0000);
    assert(x / 0x1_0000 / 0x100 == x / 0x100_0000);
    assert(x == x % 0x100 + 0x100 * (x / 0x100));
    assert(x / 0x100 == x / 0x100 % 0x100 + 0x100 * (x / 0x1_0000));
    assert(x / 0x1_0000 == x / 0x1_0000 % 0x100 + 0x100 * (x / 0x100_0000));
}

/// Each engine's line is drawn by its own display control, with the layers for
/// debugging taken out.
pub proof fn law_engines_use_own_control(s: NdsState, line: u16, upper: bool)
    ensures
        s.show_a(line, upper).1 == (Action::RenderLine {
            engine: EngineWhich::A,
            line,
            upper,
            dispcnt: masked_dispcnt(
                s.shared.engine_a.dispcnt as int,
                s.disable_obj,
                s.disable_bg,
            ) as u32,
        }),
        s.shown_a(line, upper).1 == (Action::RenderLine {
            engine: EngineWhich::B,
            line,
            upper: !upper,
            dispcnt: masked_dispcnt(
                s.shared.engine_b.dispcnt as int,
                s.disable_obj,
                s.disable_bg,
            ) as u32,
        }),
        s.screen(true) == s.top,
        s.screen(false) == s.bottom,
{
    reveal(NdsState::show_a);
    reveal(NdsState::shown_a);
}

/// A game that was booted directly and has no handler of its own gets its pending
/// interrupts noted and acknowledged; one that has is left to it.
pub proof fn law_direct_boot_interrupts(s: NdsState, o: Outcome, second: bool)
    requires
        s.run.phase == (Phase::Vector { second }),
    ensures
        ({
            let out = s.stepped(o);
            let pending = s.shared.irq9.ie & s.shared.irq9.iflag;
            let handled = o.irq_vector || s.shared.word(0x02FF_3FFC) != 0;
            &&& out.1 == (Action::StepCpu { cpu: CpuId::Arm9 })
            &&& handled ==> out.0.dtcm == s.dtcm && out.0.shared == s.shared
            &&& !handled ==> {
                &&& out.0.dtcm == noted(s.dtcm, s.cpu9.dtcm, pending)
                &&& out.0.shared.irq9.iflag == s.shared.irq9.iflag & !pending
                &&& out.0.shared.irq9.ie == s.shared.irq9.ie
                &&& out.0.shared.irq7 == s.shared.irq7
            }
        }),
{
    reveal(NdsState::vector);
}

/// A card transfer that is ready serves ARM9's DMA, then ARM7's, and then interrupts
/// the owner of the card.
pub proof fn law_card_event(s: NdsState, o: Outcome)
    ensures
        s.run.phase == Phase::Card ==> {
            &&& s.stepped(o).0.shared == s.shared.card_ready()
            &&& s.stepped(o).1 == (Action::RunSlot1Dma { cpu: CpuId::Arm9 })
            &&& s.stepped(o).0.run.phase == Phase::CardArm7
        },
        s.run.phase == Phase::CardArm7 ==> {
            &&& s.stepped(o).1 == (Action::RunSlot1Dma { cpu: CpuId::Arm7 })
            &&& s.stepped(o).0.run.phase == Phase::CardDone
            &&& s.stepped(o).0.shared == s.shared
        },
        s.run.phase == Phase::CardDone ==> s.stepped(o).0.shared == s.shared.card_done(),
{
    reveal(NdsState::card);
    reveal(NdsState::card_done);
    reveal(NdsState::event_done);
}

/// An event that was dispatched on its own ends the work; in a run the next due event
/// follows.
pub proof fn law_event_ends(s: NdsState, o: Outcome)
    requires
        s.run.phase == Phase::EventDone,
    ensures
        s.run.mode == Mode::Dispatch ==> s.stepped(o).1 == Action::Done
            && s.stepped(o).0.run.phase == Phase::Idle,
        s.run.mode != Mode::Dispatch ==> s.stepped(o).1 == Action::Continue
            && s.stepped(o).0.run.phase == Phase::Events,
        s.stepped(o).0.shared == s.shared,
{
    reveal(NdsState::event_done);
}

/// Feeding the display goes on as long as a round of DMA brought words or ended the
/// channel, and stops where it did neither.
pub proof fn law_feeding_stops(
    s: NdsState,
    o: Outcome,
    line: u16,
    upper: bool,
    before_len: usize,
    before_active: bool,
)
    requires
        s.run.phase == (Phase::Fed { line, upper, before_len, before_active }),
    ensures
        ({
            let idle = s.shared.disp_mmem_fifo.len() == before_len && s.shared.dma9_channel3.active
                == before_active;
            let out = s.stepped(o).0;
            &&& out.run.phase == if idle {
                Phase::ShowA { line, upper }
            } else {
                Phase::Feed { line, upper }
            }
            &&& o.irq ==> out.shared.irq9 == s.shared.irq9.raised(Irq::Dma3.mask())
            &&& !o.irq ==> out.shared.irq9 == s.shared.irq9
            &&& out.shared.irq7 == s.shared.irq7
        }),
{
    reveal(NdsState::fed);
}

} // verus!
