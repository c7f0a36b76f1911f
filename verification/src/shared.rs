//! What the two CPUs share: main memory, the video hardware, the interrupt
//! controllers and the registers that both sides see.

use vstd::prelude::*;
use std::collections::VecDeque;
use crate::fixed;
use crate::gpu3d::engine;
use crate::gpu3d::engine::{Engine3d, EngineState};
use crate::gpu3d::fifo::FifoState;
use crate::interrupt::{InterruptController, Irq};
use crate::ipc;
use crate::ipc::{Ipc, IpcState};
use crate::spi;
use crate::spi::{SpiBus, SpiState};
use crate::timer::{Timer, TimerTickResult, Timers};
use crate::vram;
use crate::vram::{BankState, VramRouter};

verus! {

/// Size of main memory.
pub const MAIN_RAM_SIZE: usize = 0x40_0000;

/// The registers of a 2D engine that other hardware looks at.
#[derive(Debug, Clone, Copy, PartialEq, Eq, Structural)]
pub struct DisplayEngine {
    pub dispcnt: u32,
}

/// The state of a DMA channel that the display looks at.
#[derive(Debug, Clone, Copy, PartialEq, Eq, Structural)]
pub struct DmaStatus {
    pub active: bool,
    /// The channel feeds the main-memory display FIFO.
    pub display_fifo: bool,
}

#[derive(Debug, Clone)]
pub struct SharedState {
    pub main_ram: Vec<u8>,
    pub irq9: InterruptController,
    pub irq7: InterruptController,
    pub timers9: Timers,
    pub timers7: Timers,
    pub ipc: Ipc,
    pub spi: SpiBus,
    pub gpu3d: Engine3d,
    pub vram: VramRouter,
    pub engine_a: DisplayEngine,
    pub engine_b: DisplayEngine,
    /// Display status, one per CPU: bit 0 VBlank, bit 1 HBlank, bit 2 VCount
    /// match, bits 3-5 their IRQ enables, bits 7-15 the line to match.
    pub dispstat9: u16,
    pub dispstat7: u16,
    /// The current scanline.
    pub vcount: u16,
    pub powcnt1: u16,
    /// Buttons, active low.
    pub keyinput: u16,
    pub keycnt9: u16,
    pub keycnt7: u16,
    pub extkeyin: u16,
    /// Display capture.
    pub dispcapcnt: u32,
    pub dispcap_active: bool,
    pub dispcap_pending: bool,
    /// Pixels from main memory, two per word.
    pub disp_mmem_fifo: VecDeque<u32>,
    /// ARM9 DMA channel 3.
    pub dma9_channel3: DmaStatus,
    /// ARM7 wrote HALTCNT.
    pub halt7_requested: bool,
    /// Game card.
    pub slot1_rom: Vec<u8>,
    pub slot1_romctrl: u32,
    pub slot1_command: [u8; 8],
    /// Words in transfer, and words that can be read.
    pub slot1_pending: VecDeque<u32>,
    pub slot1_data: VecDeque<u32>,
    /// Cycles until a transfer that was just started completes.
    pub slot1_delay_request: Option<u64>,
    pub slot1_complete_irq: bool,
    pub slot1_complete_irq_to_arm7: bool,
}

/// The 3D engine as contracts speak of it. Proofs about the registers around it
/// do not look inside.
#[verifier::opaque]
pub open spec fn scene(engine: Engine3d) -> EngineState {
    engine@
}

/// The 3D engine is well-formed.
#[verifier::opaque]
pub open spec fn scene_ok(engine: EngineState) -> bool {
    engine.wf()
}

/// The video memory is well-formed.
#[verifier::opaque]
pub open spec fn memory_ok(vram: VramRouter) -> bool {
    vram.wf()
}

/// The shared state as contracts speak of it.
pub struct SharedView {
    pub main_ram: Seq<u8>,
    pub irq9: InterruptController,
    pub irq7: InterruptController,
    pub timers9: Timers,
    pub timers7: Timers,
    pub ipc: IpcState,
    pub spi: SpiState,
    pub gpu3d: EngineState,
    pub vram: Seq<BankState>,
    pub engine_a: DisplayEngine,
    pub engine_b: DisplayEngine,
    pub dispstat9: u16,
    pub dispstat7: u16,
    pub vcount: u16,
    pub powcnt1: u16,
    pub keyinput: u16,
    pub keycnt9: u16,
    pub keycnt7: u16,
    pub extkeyin: u16,
    pub dispcapcnt: u32,
    pub dispcap_active: bool,
    pub dispcap_pending: bool,
    pub disp_mmem_fifo: Seq<u32>,
    pub dma9_channel3: DmaStatus,
    pub halt7_requested: bool,
    pub slot1_rom: Seq<u8>,
    pub slot1_romctrl: u32,
    pub slot1_command: [u8; 8],
    pub slot1_pending: Seq<u32>,
    pub slot1_data: Seq<u32>,
    pub slot1_delay_request: Option<u64>,
    pub slot1_complete_irq: bool,
    pub slot1_complete_irq_to_arm7: bool,
}

/// What contracts see of the shared state. Proofs elsewhere use the contracts
/// of its methods and do not look inside.
#[verifier::opaque]
pub open spec fn registers(s: SharedState) -> SharedView {
    SharedView {
        main_ram: s.main_ram@,
        irq9: s.irq9,
        irq7: s.irq7,
        timers9: s.timers9,
        timers7: s.timers7,
        ipc: s.ipc@,
        spi: s.spi@,
        gpu3d: scene(s.gpu3d),
        vram: s.vram@,
        engine_a: s.engine_a,
        engine_b: s.engine_b,
        dispstat9: s.dispstat9,
        dispstat7: s.dispstat7,
        vcount: s.vcount,
        powcnt1: s.powcnt1,
        keyinput: s.keyinput,
        keycnt9: s.keycnt9,
        keycnt7: s.keycnt7,
        extkeyin: s.extkeyin,
        dispcapcnt: s.dispcapcnt,
        dispcap_active: s.dispcap_active,
        dispcap_pending: s.dispcap_pending,
        disp_mmem_fifo: s.disp_mmem_fifo@,
        dma9_channel3: s.dma9_channel3,
        halt7_requested: s.halt7_requested,
        slot1_rom: s.slot1_rom@,
        slot1_romctrl: s.slot1_romctrl,
        slot1_command: s.slot1_command,
        slot1_pending: s.slot1_pending@,
        slot1_data: s.slot1_data@,
        slot1_delay_request: s.slot1_delay_request,
        slot1_complete_irq: s.slot1_complete_irq,
        slot1_complete_irq_to_arm7: s.slot1_complete_irq_to_arm7,
    }
}

impl View for SharedState {
    type V = SharedView;

    open spec fn view(&self) -> SharedView {
        registers(*self)
    }
}

/// The line that a display status register asks for: bits 8-15, and bit 7 as
/// the ninth bit.
pub open spec fn watched_line(dispstat: u16) -> int {
    dispstat as int / 0x100 % 0x100 + dispstat as int / 0x80 % 2 * 0x100
}

/// The display status on a line: bit 2 shows the match.
pub open spec fn matched_status(dispstat: u16, line: int) -> u16 {
    if line == watched_line(dispstat) {
        fixed::with_bit(dispstat as int, 4) as u16
    } else {
        fixed::without_bit(dispstat as int, 4) as u16
    }
}

/// A controller after the line match check.
pub open spec fn match_requested(
    irq: InterruptController,
    dispstat: u16,
    line: int,
) -> InterruptController {
    if line == watched_line(dispstat) && fixed::bit(dispstat as int, 0x20) {
        irq.raised(Irq::VCountMatch.mask())
    } else {
        irq
    }
}

/// A controller with a request added under a condition.
pub open spec fn requested_if(irq: InterruptController, condition: bool, source: Irq) -> InterruptController {
    if condition {
        irq.raised(source.mask())
    } else {
        irq
    }
}

/// The interrupt of a timer.
pub open spec fn timer_irq(i: int) -> Irq {
    if i == 0 {
        Irq::Timer0
    } else if i == 1 {
        Irq::Timer1
    } else if i == 2 {
        Irq::Timer2
    } else {
        Irq::Timer3
    }
}

/// A controller after the first `n` timers' requests.
pub open spec fn timers_requested(
    irq: InterruptController,
    timers: Timers,
    cycles: int,
    n: int,
) -> InterruptController
    decreases n,
{
    if n <= 0 {
        irq
    } else {
        requested_if(
            timers_requested(irq, timers, cycles, n - 1),
            timers.fires(cycles, n - 1),
            timer_irq(n - 1),
        )
    }
}

/// Whether the keypad interrupts a CPU: bit 14 of its control register enables
/// this, bits 0-9 choose the buttons, and bit 15 asks for all of them rather
/// than for one.
pub open spec fn keypad_fires(keycnt: u16, keyinput: u16) -> bool {
    let pressed = (0x3FF - keyinput % 0x400) as u16;
    let mask = (keycnt % 0x400) as u16;
    fixed::bit(keycnt as int, 0x4000) && if fixed::bit(keycnt as int, 0x8000) {
        pressed & mask == mask
    } else {
        pressed & mask != 0
    }
}

impl SharedView {
    /// What every operation keeps, the video memory apart.
    pub open spec fn wf(self) -> bool {
        &&& self.main_ram.len() == MAIN_RAM_SIZE
        &&& self.spi.wf()
        &&& self.ipc.wf()
        &&& scene_ok(self.gpu3d)
        &&& self.vcount < 263
    }

    /// Line `vcount`'s visible part has ended.
    pub open spec fn in_hblank(self) -> SharedView {
        SharedView {
            dispstat9: fixed::with_bit(self.dispstat9 as int, 2) as u16,
            dispstat7: fixed::with_bit(self.dispstat7 as int, 2) as u16,
            ..self
        }
    }

    /// HBlank interrupts of a visible line.
    pub open spec fn hblank_requested(self) -> SharedView {
        SharedView {
            irq9: requested_if(self.irq9, fixed::bit(self.dispstat9 as int, 0x10), Irq::HBlank),
            irq7: requested_if(self.irq7, fixed::bit(self.dispstat7 as int, 0x10), Irq::HBlank),
            ..self
        }
    }

    /// The next line begins: HBlank ends and the line match is checked.
    pub open spec fn next_line(self) -> SharedView {
        let line = (self.vcount + 1) % 263;
        let d9 = fixed::without_bit(self.dispstat9 as int, 2) as u16;
        let d7 = fixed::without_bit(self.dispstat7 as int, 2) as u16;
        SharedView {
            vcount: line as u16,
            dispstat9: matched_status(d9, line),
            dispstat7: matched_status(d7, line),
            irq9: match_requested(self.irq9, d9, line),
            irq7: match_requested(self.irq7, d7, line),
            ..self
        }
    }

    /// VBlank begins.
    pub open spec fn in_vblank(self) -> SharedView {
        SharedView {
            dispstat9: fixed::with_bit(self.dispstat9 as int, 1) as u16,
            dispstat7: fixed::with_bit(self.dispstat7 as int, 1) as u16,
            irq9: requested_if(self.irq9, fixed::bit(self.dispstat9 as int, 8), Irq::VBlank),
            irq7: requested_if(self.irq7, fixed::bit(self.dispstat7 as int, 8), Irq::VBlank),
            ..self
        }
    }

    /// VBlank ends.
    pub open spec fn vblank_ended(self) -> SharedView {
        SharedView {
            dispstat9: fixed::without_bit(self.dispstat9 as int, 1) as u16,
            dispstat7: fixed::without_bit(self.dispstat7 as int, 1) as u16,
            ..self
        }
    }

    /// The 3D engine swaps its buffers and renders from the video memory.
    pub open spec fn swapped(self) -> SharedView {
        SharedView { gpu3d: self.gpu3d.swapped(Some(self.vram)), ..self }
    }

    /// The "geometry FIFO fell below half" mark is taken.
    pub open spec fn half_mark_taken(self) -> SharedView {
        SharedView {
            gpu3d: EngineState {
                fifo: FifoState { fell_below_half: false, ..self.gpu3d.fifo },
                ..self.gpu3d
            },
            ..self
        }
    }

    /// Whether the geometry FIFO asks for its interrupt.
    pub open spec fn gx_condition(self) -> bool {
        let f = self.gpu3d.fifo;
        (f.irq_mode == 1 && f.entries < 128) || (f.irq_mode == 2 && f.entries == 0)
    }

    /// Level-triggered interrupts are requested again.
    pub open spec fn levels_requested(self) -> SharedView {
        SharedView { irq9: requested_if(self.irq9, self.gx_condition(), Irq::GxFifo), ..self }
    }

    /// All timers tick, each CPU's in its own clock.
    pub open spec fn ticked(self, arm9_cycles: int, arm7_cycles: int) -> SharedView {
        SharedView {
            timers9: self.timers9.ticked(arm9_cycles),
            timers7: self.timers7.ticked(arm7_cycles),
            irq9: timers_requested(self.irq9, self.timers9, arm9_cycles, 4),
            irq7: timers_requested(self.irq7, self.timers7, arm7_cycles, 4),
            ..self
        }
    }

    /// The buttons change.
    pub open spec fn keyed(self, keys: u16) -> SharedView {
        let k = (keys % 0x400) as u16;
        SharedView {
            keyinput: k,
            irq9: requested_if(self.irq9, keypad_fires(self.keycnt9, k), Irq::Keypad),
            irq7: requested_if(self.irq7, keypad_fires(self.keycnt7, k), Irq::Keypad),
            ..self
        }
    }

    /// The pen moves. Bit 6 of the extra keys is low while it is down.
    pub open spec fn touched(self, x: u16, y: u16, pen_down: bool) -> SharedView {
        SharedView {
            spi: SpiState { tsc: self.spi.tsc.touched(x, y, pen_down), ..self.spi },
            extkeyin: if pen_down {
                fixed::without_bit(self.extkeyin as int, 0x40) as u16
            } else {
                fixed::with_bit(self.extkeyin as int, 0x40) as u16
            },
            ..self
        }
    }

    /// A card transfer's words become readable: bit 23 of the control register
    /// shows that there are some; without any, the transfer is over (bit 31).
    pub open spec fn card_ready(self) -> SharedView {
        let data = self.slot1_data + self.slot1_pending;
        SharedView {
            slot1_pending: Seq::empty(),
            slot1_data: data,
            slot1_romctrl: if data.len() > 0 {
                fixed::with_bit(self.slot1_romctrl as int, 0x80_0000) as u32
            } else {
                fixed::without_bit(
                    fixed::without_bit(self.slot1_romctrl as int, 0x80_0000),
                    0x8000_0000,
                ) as u32
            },
            ..self
        }
    }

    /// The interrupt at the end of a card transfer, to the CPU that owns the
    /// card.
    pub open spec fn card_done(self) -> SharedView {
        SharedView {
            slot1_complete_irq: false,
            irq9: requested_if(
                self.irq9,
                self.slot1_complete_irq && !self.slot1_complete_irq_to_arm7,
                Irq::Slot1Data,
            ),
            irq7: requested_if(
                self.irq7,
                self.slot1_complete_irq && self.slot1_complete_irq_to_arm7,
                Irq::Slot1Data,
            ),
            ..self
        }
    }

    /// The little-endian word of main memory at an address, which repeats every
    /// 4 MB.
    pub open spec fn word(self, addr: int) -> int {
        let off = addr % 0x40_0000;
        self.main_ram[off] + 0x100 * self.main_ram[off + 1] + 0x1_0000 * self.main_ram[off + 2]
            + 0x100_0000 * self.main_ram[off + 3]
    }
}

/// A CPU's timers at power-on.
pub open spec fn idle_timers(t: Timers) -> bool {
    forall|i: int|
        0 <= i < 4 ==> (#[trigger] t.timers[i]) == (Timer {
            reload: 0,
            counter: 0,
            control: 0,
            prescaler_counter: 0,
        })
}

/// Power-on: everything off, no button held, pen up.
pub open spec fn power_on(s: SharedView) -> bool {
    let no_irq = InterruptController { ie: 0, iflag: 0, ime: false };
    &&& s.main_ram == Seq::new(MAIN_RAM_SIZE as nat, |i: int| 0u8)
    &&& s.irq9 == no_irq && s.irq7 == no_irq
    &&& idle_timers(s.timers9) && idle_timers(s.timers7)
    &&& s.ipc == ipc::silent()
    &&& spi::power_on(s.spi)
    &&& s.gpu3d == engine::initial()
    &&& vram::blank(s.vram)
    &&& s.engine_a.dispcnt == 0 && s.engine_b.dispcnt == 0
    &&& s.dispstat9 == 0 && s.dispstat7 == 0 && s.vcount == 0 && s.powcnt1 == 0
    &&& s.keyinput == 0x3FF && s.keycnt9 == 0 && s.keycnt7 == 0 && s.extkeyin == 0x7F
    &&& s.dispcapcnt == 0 && !s.dispcap_active && !s.dispcap_pending
    &&& s.disp_mmem_fifo == Seq::<u32>::empty()
    &&& !s.dma9_channel3.active && !s.dma9_channel3.display_fifo
    &&& !s.halt7_requested
    &&& s.slot1_rom == Seq::<u8>::empty() && s.slot1_romctrl == 0
    &&& s.slot1_command@ == seq![0u8, 0, 0, 0, 0, 0, 0, 0]
    &&& s.slot1_pending == Seq::<u32>::empty() && s.slot1_data == Seq::<u32>::empty()
    &&& s.slot1_delay_request is None
    &&& !s.slot1_complete_irq && !s.slot1_complete_irq_to_arm7
}

/// Every scanline is followed by the next one, the last by the first.
pub proof fn law_scanlines_cycle(s: SharedView)
    requires
        s.vcount < 263,
    ensures
        s.next_line().vcount < 263,
        s.vcount < 262 ==> s.next_line().vcount == s.vcount + 1,
        s.vcount == 262 ==> s.next_line().vcount == 0,
{
}

/// Bit 2 of the display status shows the match of the new line, on each CPU for
/// its own register.
pub proof fn law_line_match_shown(s: SharedView)
    requires
        s.vcount < 263,
    ensures
        fixed::bit(s.next_line().dispstat9 as int, 4) == (s.next_line().vcount == watched_line(
            s.dispstat9,
        )),
        fixed::bit(s.next_line().dispstat7 as int, 4) == (s.next_line().vcount == watched_line(
            s.dispstat7,
        )),
{
    lemma_match_bit(s.dispstat9, s.next_line().vcount as int);
    lemma_match_bit(s.dispstat7, s.next_line().vcount as int);
}

proof fn lemma_match_bit(d: u16, line: int)
    ensures
        fixed::bit(
            matched_status(fixed::without_bit(d as int, 2) as u16, line) as int,
            4,
        ) == (line == watched_line(d)),
{
    let x = fixed::without_bit(d as int, 2);
    assert(0 <= x <= d);
    assert(x / 0x80 == d as int / 0x80) by {
        assert(x / 4 == d as int / 4);
        assert(x / 0x80 == x / 4 / 0x20);
        assert(d as int / 0x80 == d as int / 4 / 0x20);
    }
    assert(x / 0x100 == x / 0x80 / 2);
    assert(d as int / 0x100 == d as int / 0x80 / 2);
    assert(watched_line(x as u16) == watched_line(d));
    let y = fixed::with_bit(x, 4);
    let z = fixed::without_bit(x, 4);
    assert(y / 4 % 2 == 1);
    assert(z / 4 % 2 == 0);
    assert(y <= 0xFFFF);
    assert(0 <= z);
}

/// Set a flag of a 16-bit register.
fn set_flag(d: u16, weight: u16) -> (r: u16)
    requires
        weight == 1 || weight == 2 || weight == 4 || weight == 0x40,
    ensures
        r == fixed::with_bit(d as int, weight as int),
{
    if fixed::has_bit(d as u32, weight as u32) {
        d
    } else {
        d + weight
    }
}

/// Clear a flag of a 16-bit register.
fn clear_flag(d: u16, weight: u16) -> (r: u16)
    requires
        weight == 1 || weight == 2 || weight == 4 || weight == 0x40,
    ensures
        r == fixed::without_bit(d as int, weight as int),
{
    if fixed::has_bit(d as u32, weight as u32) {
        d - weight
    } else {
        d
    }
}

/// Check VCOUNT against a display status register.
pub fn check_vcount_match(dispstat: &mut u16, irq: &mut InterruptController, line: u16)
    ensures
        *final(dispstat) == matched_status(*old(dispstat), line as int),
        *final(irq) == match_requested(*old(irq), *old(dispstat), line as int),
{
    let d: u16 = *dispstat;
    let lyc: u16 = (d / 0x100) % 0x100 + (d / 0x80) % 2 * 0x100;
    if line == lyc {
        *dispstat = set_flag(d, 4);
        if fixed::has_bit(d as u32, 0x20) {
            irq.request(Irq::VCountMatch);
        }
    } else {
        *dispstat = clear_flag(d, 4);
    }
}

/// Move all words from one queue to the end of another.
fn append(to: &mut VecDeque<u32>, from: &mut VecDeque<u32>)
    ensures
        final(to)@ == old(to)@ + old(from)@,
        final(from)@ == Seq::<u32>::empty(),
{
    let ghost all = to@ + from@;
    loop
        invariant
            to@ + from@ == all,
        ensures
            from@.len() == 0,
        decreases from@.len(),
    {
        match from.pop_front() {
            Some(word) => {
                to.push_back(word);
                assert(to@ + from@ =~= all);
            },
            None => {
                break;
            },
        }
    }
    assert(to@ =~= all);
}

/// Request a timer's interrupts.
fn request_timer_irqs(irq: &mut InterruptController, fired: &TimerTickResult, timers: Ghost<Timers>, cycles: Ghost<int>)
    requires
        forall|i: int| 0 <= i < 4 ==> (#[trigger] fired.irqs[i]) == timers@.fires(cycles@, i),
    ensures
        *final(irq) == timers_requested(*old(irq), timers@, cycles@, 4),
{
    for i in 0..4usize
        invariant
            forall|i: int| 0 <= i < 4 ==> (#[trigger] fired.irqs[i]) == timers@.fires(cycles@, i),
            *irq == timers_requested(*old(irq), timers@, cycles@, i as int),
    {
        assert(fired.irqs[i as int] == timers@.fires(cycles@, i as int));
        if fired.irqs[i] {
            let source: Irq = match i {
                0 => Irq::Timer0,
                1 => Irq::Timer1,
                2 => Irq::Timer2,
                _ => Irq::Timer3,
            };
            irq.request(source);
        }
    }
}

impl SharedState {
    /// The shared state is well-formed, the video memory's decoded targets
    /// too.
    #[verifier::opaque]
    pub open spec fn wf(&self) -> bool {
        self@.wf() && memory_ok(self.vram)
    }

    /// Power-on state: everything off, no button held, pen up.
    pub fn new() -> (r: Self)
        ensures
            r.wf(),
            power_on(r@),
    {
        proof {
            reveal(registers);
            reveal(SharedState::wf);
        }
        let mut main_ram: Vec<u8> = Vec::with_capacity(MAIN_RAM_SIZE);
        for i in 0..MAIN_RAM_SIZE
            invariant
                main_ram@ == Seq::new(i as nat, |k: int| 0u8),
        {
            main_ram.push(0);
            assert(main_ram@ =~= Seq::new((i + 1) as nat, |k: int| 0u8));
        }
        proof {
            reveal(scene);
            reveal(scene_ok);
            reveal(memory_ok);
        }
        let r = SharedState {
            main_ram,
            irq9: InterruptController::new(),
            irq7: InterruptController::new(),
            timers9: Timers::new(),
            timers7: Timers::new(),
            ipc: Ipc::new(),
            spi: SpiBus::new(),
            gpu3d: Engine3d::new(),
            vram: VramRouter::new(),
            engine_a: DisplayEngine { dispcnt: 0 },
            engine_b: DisplayEngine { dispcnt: 0 },
            dispstat9: 0,
            dispstat7: 0,
            vcount: 0,
            powcnt1: 0,
            keyinput: 0x3FF,
            keycnt9: 0,
            keycnt7: 0,
            extkeyin: 0x7F,
            dispcapcnt: 0,
            dispcap_active: false,
            dispcap_pending: false,
            disp_mmem_fifo: VecDeque::new(),
            dma9_channel3: DmaStatus { active: false, display_fifo: false },
            halt7_requested: false,
            slot1_rom: Vec::new(),
            slot1_romctrl: 0,
            slot1_command: [0; 8],
            slot1_pending: VecDeque::new(),
            slot1_data: VecDeque::new(),
            slot1_delay_request: None,
            slot1_complete_irq: false,
            slot1_complete_irq_to_arm7: false,
        };
        assert(r@.slot1_command@ =~= seq![0u8, 0, 0, 0, 0, 0, 0, 0]);
        r
    }

    /// Enter HBlank.
    pub fn enter_hblank(&mut self)
        ensures
            final(self)@ == old(self)@.in_hblank(),
            old(self).wf() ==> final(self).wf(),
    {
        proof {
            reveal(registers);
            reveal(SharedState::wf);
        }
        self.dispstat9 = set_flag(self.dispstat9, 2);
        self.dispstat7 = set_flag(self.dispstat7, 2);
    }

    /// Request the HBlank interrupts that are enabled.
    pub fn request_hblank(&mut self)
        ensures
            final(self)@ == old(self)@.hblank_requested(),
            old(self).wf() ==> final(self).wf(),
    {
        proof {
            reveal(registers);
            reveal(SharedState::wf);
        }
        if fixed::has_bit(self.dispstat9 as u32, 0x10) {
            self.irq9.request(Irq::HBlank);
        }
        if fixed::has_bit(self.dispstat7 as u32, 0x10) {
            self.irq7.request(Irq::HBlank);
        }
    }

    /// Leave HBlank for the next line.
    pub fn start_line(&mut self)
        requires
            old(self).wf(),
        ensures
            final(self)@ == old(self)@.next_line(),
            old(self).wf() ==> final(self).wf(),
    {
        proof {
            reveal(registers);
            reveal(SharedState::wf);
        }
        self.dispstat9 = clear_flag(self.dispstat9, 2);
        self.dispstat7 = clear_flag(self.dispstat7, 2);
        self.vcount = (self.vcount + 1) % 263;
        check_vcount_match(&mut self.dispstat9, &mut self.irq9, self.vcount);
        check_vcount_match(&mut self.dispstat7, &mut self.irq7, self.vcount);
    }

    /// Request the VBlank interrupts that are enabled.
    fn request_vblank(&mut self)
        ensures
            final(self)@ == (SharedView {
                irq9: requested_if(
                    old(self)@.irq9,
                    fixed::bit(old(self)@.dispstat9 as int, 8),
                    Irq::VBlank,
                ),
                irq7: requested_if(
                    old(self)@.irq7,
                    fixed::bit(old(self)@.dispstat7 as int, 8),
                    Irq::VBlank,
                ),
                ..old(self)@
            }),
            old(self).wf() ==> final(self).wf(),
    {
        proof {
            reveal(registers);
            reveal(SharedState::wf);
        }
        if fixed::has_bit(self.dispstat9 as u32, 8) {
            self.irq9.request(Irq::VBlank);
        }
        if fixed::has_bit(self.dispstat7 as u32, 8) {
            self.irq7.request(Irq::VBlank);
        }
    }

    /// Enter VBlank.
    pub fn enter_vblank(&mut self)
        ensures
            final(self)@ == old(self)@.in_vblank(),
            old(self).wf() ==> final(self).wf(),
    {
        proof {
            reveal(registers);
            reveal(SharedState::wf);
        }
        self.request_vblank();
        self.dispstat9 = set_flag(self.dispstat9, 1);
        self.dispstat7 = set_flag(self.dispstat7, 1);
    }

    /// Leave VBlank.
    pub fn leave_vblank(&mut self)
        ensures
            final(self)@ == old(self)@.vblank_ended(),
            old(self).wf() ==> final(self).wf(),
    {
        proof {
            reveal(registers);
            reveal(SharedState::wf);
        }
        self.dispstat9 = clear_flag(self.dispstat9, 1);
        self.dispstat7 = clear_flag(self.dispstat7, 1);
    }

    /// Swap the 3D engine's buffers for the frame about to be shown.
    pub fn swap_3d(&mut self)
        requires
            old(self).wf(),
        ensures
            final(self)@ == old(self)@.swapped(),
            final(self).wf(),
    {
        proof {
            reveal(registers);
            reveal(SharedState::wf);
            reveal(scene);
            reveal(scene_ok);
            reveal(memory_ok);
        }
        self.gpu3d.swap_buffers(Some(&self.vram));
    }

    /// Take the mark that the geometry FIFO fell below half.
    pub fn take_half_mark(&mut self) -> (r: bool)
        ensures
            r == old(self)@.gpu3d.fifo.fell_below_half,
            final(self)@ == old(self)@.half_mark_taken(),
            old(self).wf() ==> final(self).wf(),
    {
        proof {
            reveal(registers);
            reveal(SharedState::wf);
            reveal(scene);
            reveal(scene_ok);
        }
        self.gpu3d.fifo.take_below_half_edge()
    }

    /// Request level-triggered interrupts again.
    pub fn refresh_level_irqs(&mut self)
        ensures
            final(self)@ == old(self)@.levels_requested(),
            old(self).wf() ==> final(self).wf(),
    {
        proof {
            reveal(registers);
            reveal(SharedState::wf);
            reveal(scene);
        }
        if self.gpu3d.fifo.irq_condition() {
            self.irq9.request(Irq::GxFifo);
        }
    }

    /// Tick the timers of both CPUs and request their interrupts.
    pub fn tick_timers(&mut self, arm9_cycles: u32, arm7_cycles: u32)
        ensures
            final(self)@ == old(self)@.ticked(arm9_cycles as int, arm7_cycles as int),
            old(self).wf() ==> final(self).wf(),
    {
        proof {
            reveal(registers);
            reveal(SharedState::wf);
        }
        let ghost t9 = self.timers9;
        let ghost t7 = self.timers7;
        let r9: TimerTickResult = self.timers9.tick(arm9_cycles);
        request_timer_irqs(&mut self.irq9, &r9, Ghost(t9), Ghost(arm9_cycles as int));
        let r7: TimerTickResult = self.timers7.tick(arm7_cycles);
        request_timer_irqs(&mut self.irq7, &r7, Ghost(t7), Ghost(arm7_cycles as int));
    }

    /// Update the buttons; bit `n` low means that button `n` is held.
    pub fn set_keys(&mut self, keys: u16)
        ensures
            final(self)@ == old(self)@.keyed(keys),
            old(self).wf() ==> final(self).wf(),
    {
        proof {
            reveal(registers);
            reveal(SharedState::wf);
        }
        self.keyinput = keys % 0x400;
        self.check_keypad_irq();
    }

    /// Request the keypad interrupt on each CPU whose condition holds.
    pub fn check_keypad_irq(&mut self)
        ensures
            final(self)@ == (SharedView {
                irq9: requested_if(
                    old(self)@.irq9,
                    keypad_fires(old(self)@.keycnt9, old(self)@.keyinput),
                    Irq::Keypad,
                ),
                irq7: requested_if(
                    old(self)@.irq7,
                    keypad_fires(old(self)@.keycnt7, old(self)@.keyinput),
                    Irq::Keypad,
                ),
                ..old(self)@
            }),
            old(self).wf() ==> final(self).wf(),
    {
        proof {
            reveal(registers);
            reveal(SharedState::wf);
        }
        if Self::keypad_condition(self.keycnt9, self.keyinput) {
            self.irq9.request(Irq::Keypad);
        }
        if Self::keypad_condition(self.keycnt7, self.keyinput) {
            self.irq7.request(Irq::Keypad);
        }
    }

    fn keypad_condition(keycnt: u16, keyinput: u16) -> (r: bool)
        ensures
            r == keypad_fires(keycnt, keyinput),
    {
        if !fixed::has_bit(keycnt as u32, 0x4000) {
            return false;
        }
        let pressed: u16 = 0x3FF - keyinput % 0x400;
        let mask: u16 = keycnt % 0x400;
        if fixed::has_bit(keycnt as u32, 0x8000) {
            pressed & mask == mask
        } else {
            pressed & mask != 0
        }
    }

    /// Move the pen.
    pub fn set_touch(&mut self, x: u16, y: u16, pen_down: bool)
        requires
            old(self).wf(),
        ensures
            final(self)@ == old(self)@.touched(x, y, pen_down),
            final(self).wf(),
    {
        proof {
            reveal(registers);
            reveal(SharedState::wf);
        }
        self.spi.tsc.set_touch(x, y, pen_down);
        if pen_down {
            self.extkeyin = clear_flag(self.extkeyin, 0x40);
        } else {
            self.extkeyin = set_flag(self.extkeyin, 0x40);
        }
    }

    /// The card transfer time has passed: publish the words.
    pub fn publish_card_data(&mut self)
        ensures
            final(self)@ == old(self)@.card_ready(),
            old(self).wf() ==> final(self).wf(),
    {
        proof {
            reveal(registers);
            reveal(SharedState::wf);
        }
        append(&mut self.slot1_data, &mut self.slot1_pending);
        if self.slot1_data.len() > 0 {
            self.slot1_romctrl = fixed::set_bit(self.slot1_romctrl, 0x80_0000);
        } else {
            self.slot1_romctrl =
            fixed::clear_bit(fixed::clear_bit(self.slot1_romctrl, 0x80_0000), 0x8000_0000);
        }
    }

    /// Request the interrupt at the end of a card transfer.
    pub fn request_card_done(&mut self)
        ensures
            final(self)@ == old(self)@.card_done(),
            old(self).wf() ==> final(self).wf(),
    {
        proof {
            reveal(registers);
            reveal(SharedState::wf);
        }
        if self.slot1_complete_irq {
            self.slot1_complete_irq = false;
            if self.slot1_complete_irq_to_arm7 {
                self.irq7.request(Irq::Slot1Data);
            } else {
                self.irq9.request(Irq::Slot1Data);
            }
        }
    }

    /// The current scanline.
    pub(crate) fn line(&self) -> (r: u16)
        ensures
            r == self@.vcount,
    {
        proof {
            reveal(registers);
        }
        self.vcount
    }

    /// Display control of engine A.
    pub(crate) fn dispcnt_a(&self) -> (r: u32)
        ensures
            r == self@.engine_a.dispcnt,
    {
        proof {
            reveal(registers);
        }
        self.engine_a.dispcnt
    }

    /// Display control of engine B.
    pub(crate) fn dispcnt_b(&self) -> (r: u32)
        ensures
            r == self@.engine_b.dispcnt,
    {
        proof {
            reveal(registers);
        }
        self.engine_b.dispcnt
    }

    /// Which screen engine A shows on: the upper one or the lower one.
    pub(crate) fn engine_a_on_top(&self) -> (r: bool)
        ensures
            r == fixed::bit(self@.powcnt1 as int, 0x8000),
    {
        proof {
            reveal(registers);
        }
        fixed::has_bit(self.powcnt1 as u32, 0x8000)
    }

    /// Words in the main-memory FIFO.
    pub(crate) fn fifo_len(&self) -> (r: usize)
        ensures
            r == self@.disp_mmem_fifo.len(),
    {
        proof {
            reveal(registers);
        }
        self.disp_mmem_fifo.len()
    }

    /// ARM9 DMA channel 3.
    pub(crate) fn channel3(&self) -> (r: DmaStatus)
        ensures
            r == self@.dma9_channel3,
    {
        proof {
            reveal(registers);
        }
        self.dma9_channel3
    }

    /// ARM9's interrupt controller.
    pub(crate) fn controller9(&self) -> (r: InterruptController)
        ensures
            r == self@.irq9,
    {
        proof {
            reveal(registers);
        }
        self.irq9
    }

    /// ARM7's interrupt controller.
    pub(crate) fn controller7(&self) -> (r: InterruptController)
        ensures
            r == self@.irq7,
    {
        proof {
            reveal(registers);
        }
        self.irq7
    }

    /// Request an interrupt on ARM9.
    pub(crate) fn request9(&mut self, source: Irq)
        ensures
            final(self)@ == (SharedView {
                irq9: old(self)@.irq9.raised(source.mask()),
                ..old(self)@
            }),
            old(self).wf() ==> final(self).wf(),
    {
        proof {
            reveal(registers);
            reveal(SharedState::wf);
        }
        self.irq9.request(source);
    }

    /// Request an interrupt on ARM7.
    pub(crate) fn request7(&mut self, source: Irq)
        ensures
            final(self)@ == (SharedView {
                irq7: old(self)@.irq7.raised(source.mask()),
                ..old(self)@
            }),
            old(self).wf() ==> final(self).wf(),
    {
        proof {
            reveal(registers);
            reveal(SharedState::wf);
        }
        self.irq7.request(source);
    }

    /// Acknowledge interrupts on ARM9.
    pub(crate) fn acknowledge9(&mut self, mask: u32)
        ensures
            final(self)@ == (SharedView {
                irq9: old(self)@.irq9.acknowledged(mask),
                ..old(self)@
            }),
            old(self).wf() ==> final(self).wf(),
    {
        proof {
            reveal(registers);
            reveal(SharedState::wf);
        }
        self.irq9.acknowledge(mask);
    }

    /// Take ARM7's request to be halted.
    pub(crate) fn take_halt7(&mut self) -> (r: bool)
        ensures
            r == old(self)@.halt7_requested,
            final(self)@ == (SharedView { halt7_requested: false, ..old(self)@ }),
            old(self).wf() ==> final(self).wf(),
    {
        proof {
            reveal(registers);
            reveal(SharedState::wf);
        }
        let requested: bool = self.halt7_requested;
        self.halt7_requested = false;
        requested
    }

    /// Take the delay of a card transfer that was started.
    pub(crate) fn take_card_delay(&mut self) -> (r: Option<u64>)
        ensures
            r == old(self)@.slot1_delay_request,
            final(self)@ == (SharedView { slot1_delay_request: None, ..old(self)@ }),
            old(self).wf() ==> final(self).wf(),
    {
        proof {
            reveal(registers);
            reveal(SharedState::wf);
        }
        let delay: Option<u64> = self.slot1_delay_request;
        self.slot1_delay_request = None;
        delay
    }

    /// Set the extra buttons.
    pub fn set_extkeys(&mut self, extkeys: u16)
        ensures
            final(self)@ == (SharedView { extkeyin: (extkeys % 0x80) as u16, ..old(self)@ }),
            old(self).wf() ==> final(self).wf(),
    {
        proof {
            reveal(registers);
            reveal(SharedState::wf);
        }
        self.extkeyin = extkeys % 0x80;
    }

    /// Insert a cartridge; the card interface is idle.
    pub fn insert_card(&mut self, rom: Vec<u8>)
        ensures
            final(self)@ == (SharedView {
                slot1_rom: rom@,
                slot1_romctrl: 0,
                slot1_command: [0u8, 0, 0, 0, 0, 0, 0, 0],
                slot1_data: Seq::empty(),
                ..old(self)@
            }),
            old(self).wf() ==> final(self).wf(),
    {
        proof {
            reveal(registers);
            reveal(SharedState::wf);
        }
        self.slot1_rom = rom;
        self.slot1_romctrl = 0;
        self.slot1_command = [0, 0, 0, 0, 0, 0, 0, 0];
        self.slot1_data.clear();
        assert(self.slot1_data@ =~= Seq::empty());
    }

    /// The word of main memory at an address.
    pub fn main_ram32(&self, addr: u32) -> (r: u32)
        requires
            self.wf(),
            addr as int % 0x40_0000 <= 0x3F_FFFC,
        ensures
            r == self@.word(addr as int),
    {
        proof {
            reveal(registers);
            reveal(SharedState::wf);
        }
        let off: usize = (addr % 0x40_0000) as usize;
        self.main_ram[off] as u32 + 0x100 * (self.main_ram[off + 1] as u32) + 0x1_0000 * (
        self.main_ram[off + 2] as u32) + 0x100_0000 * (self.main_ram[off + 3] as u32)
    }
}

impl Default for SharedState {
    fn default() -> (r: Self)
        ensures
            r.wf(),
            power_on(r@),
    {
        proof {
            reveal(registers);
            reveal(SharedState::wf);
        }
        Self::new()
    }
}

/// Whether bit `n` of `x` is set.
pub open spec fn holds_button(x: u16, n: u16) -> bool {
    (x >> n) & 1 == 1
}

proof fn lemma_buttons(pressed: u16, mask: u16, n: u16)
    by (bit_vector)
    requires
        n < 16,
    ensures
        pressed & mask == mask && (mask >> n) & 1 == 1 ==> (pressed >> n) & 1 == 1,
        (pressed >> n) & 1 == 1 && (mask >> n) & 1 == 1 ==> pressed & mask != 0,
{
}

/// The line that bits 8 to 15 of the display status name, with bit 7 on top of them, is
/// the one that matches; bit 5 asks for the interrupt.
pub proof fn law_line_match_interrupt(s: SharedView, line: int, rest: int)
    requires
        s.vcount < 263,
        0 <= line < 0x200,
        0 <= rest < 0x80,
        s.dispstat9 == rest + 0x80 * (line / 0x100) + 0x100 * (line % 0x100),
    ensures
        ({
            let after = s.next_line();
            let hit = after.vcount == line && rest / 0x20 % 2 == 1;
            after.irq9 == if hit { s.irq9.raised(Irq::VCountMatch.mask()) } else { s.irq9 }
        }),
{
    let d = s.dispstat9 as int;
    let h = line / 0x100;
    let l = line % 0x100;
    fixed::lemma_low_field(d, rest, h + 2 * l, 0x80);
    fixed::lemma_low_field(h + 2 * l, h, l, 2);
    vstd::arithmetic::div_mod::lemma_div_denominator(d, 0x80, 2);
    let e = fixed::without_bit(d, 2);
    let r = fixed::without_bit(rest, 2);
    assert(d / 2 % 2 == rest / 2 % 2) by {
        assert(d / 2 == rest / 2 + 0x40 * (h + 2 * l));
    }
    assert(e == r + 0x80 * (h + 2 * l));
    assert(0 <= r < 0x80);
    fixed::lemma_low_field(e, r, h + 2 * l, 0x80);
    vstd::arithmetic::div_mod::lemma_div_denominator(e, 0x80, 2);
    assert(e / 0x20 == r / 0x20 + 4 * (h + 2 * l));
    assert(r / 0x20 == rest / 0x20);
}

/// A visible line's end interrupts a CPU where bit 4 of its own status asks for it, the
/// start of VBlank where bit 3 does; each shows in bit 1 or bit 0 of both.
#[verifier::spinoff_prover]
#[verifier::rlimit(60)]
pub proof fn law_blank_interrupts(s: SharedView)
    ensures
        s.hblank_requested().irq9 == if s.dispstat9 / 0x10 % 2 == 1 {
            s.irq9.raised(Irq::HBlank.mask())
        } else {
            s.irq9
        },
        s.hblank_requested().irq7 == if s.dispstat7 / 0x10 % 2 == 1 {
            s.irq7.raised(Irq::HBlank.mask())
        } else {
            s.irq7
        },
        s.in_vblank().irq9 == if s.dispstat9 / 8 % 2 == 1 {
            s.irq9.raised(Irq::VBlank.mask())
        } else {
            s.irq9
        },
        s.in_vblank().irq7 == if s.dispstat7 / 8 % 2 == 1 {
            s.irq7.raised(Irq::VBlank.mask())
        } else {
            s.irq7
        },
        s.in_hblank().dispstat9 / 2 % 2 == 1,
        s.in_hblank().dispstat7 / 2 % 2 == 1,
        s.in_vblank().dispstat9 % 2 == 1,
        s.in_vblank().dispstat7 % 2 == 1,
        s.vblank_ended().dispstat9 % 2 == 0,
        s.vblank_ended().dispstat7 % 2 == 0,
        s.vblank_ended().dispstat9 / 2 == s.dispstat9 / 2,
        s.in_vblank().dispstat9 / 2 == s.dispstat9 / 2,
        s.in_hblank().dispstat9 % 2 == s.dispstat9 % 2,
        s.in_hblank().dispstat9 / 4 == s.dispstat9 / 4,
{
    lemma_blank_bits(s.dispstat9);
    lemma_blank_bits(s.dispstat7);
}

proof fn lemma_blank_bits(d: u16)
    ensures
        ({
            let h = fixed::with_bit(d as int, 2);
            let v = fixed::with_bit(d as int, 1);
            let n = fixed::without_bit(d as int, 1);
            &&& 0 <= h <= 0xFFFF && 0 <= v <= 0xFFFF && 0 <= n <= 0xFFFF
            &&& h / 2 % 2 == 1 && h % 2 == d % 2 && h / 4 == d / 4
            &&& v % 2 == 1 && v / 2 == d / 2
            &&& n % 2 == 0 && n / 2 == d / 2
        }),
{
    let x = d as int;
    assert(x == 2 * (x / 2) + x % 2);
    assert(x / 2 == 2 * (x / 4) + x / 2 % 2);
}

/// A held button reads as 0. Asked for any of some buttons, the keypad interrupts where
/// one of them is held; asked for all, only where none is missing; not asked, never.
pub proof fn law_keypad_condition(keycnt: u16, keyinput: u16, b: u16)
    requires
        b < 10,
    ensures
        ({
            let pressed = (0x3FF - keyinput % 0x400) as u16;
            let chosen = (keycnt % 0x400) as u16;
            let ask = keycnt / 0x4000 % 2 == 1;
            let all = keycnt / 0x8000 == 1;
            &&& !ask ==> !keypad_fires(keycnt, keyinput)
            &&& ask && !all && holds_button(pressed, b) && holds_button(chosen, b) ==> keypad_fires(
                keycnt,
                keyinput,
            )
            &&& keypad_fires(keycnt, keyinput) && all && holds_button(chosen, b) ==> holds_button(
                pressed,
                b,
            )
            &&& ask && !all && !keypad_fires(keycnt, keyinput) && holds_button(chosen, b)
                ==> !holds_button(pressed, b)
            &&& ask && all && chosen == 0 ==> keypad_fires(keycnt, keyinput)
        }),
{
    let pressed = (0x3FF - keyinput % 0x400) as u16;
    let chosen = (keycnt % 0x400) as u16;
    lemma_buttons(pressed, chosen, b);
    if chosen == 0 {
        lemma_no_button(pressed, chosen);
    }
}

proof fn lemma_no_button(pressed: u16, mask: u16)
    by (bit_vector)
    requires
        mask == 0,
    ensures
        pressed & mask == mask,
{
}

/// The keypad register takes ten buttons, and each CPU's own control register decides
/// whether the change interrupts it.
pub proof fn law_keys_reach_both_cpus(s: SharedView, keys: u16)
    ensures
        ({
            let after = s.keyed(keys);
            &&& after.keyinput == keys % 0x400
            &&& after.irq9 == if keypad_fires(s.keycnt9, after.keyinput) {
                s.irq9.raised(Irq::Keypad.mask())
            } else {
                s.irq9
            }
            &&& after.irq7 == if keypad_fires(s.keycnt7, after.keyinput) {
                s.irq7.raised(Irq::Keypad.mask())
            } else {
                s.irq7
            }
        }),
{
}

/// The touchscreen gets the pen, and bit 6 of the extra keys is 0 while it is down; the
/// other extra keys stay.
pub proof fn law_pen_shown_in_keys(s: SharedView, x: u16, y: u16, down: bool)
    ensures
        ({
            let after = s.touched(x, y, down);
            &&& (after.extkeyin / 0x40 % 2 == 0) == down
            &&& after.extkeyin % 0x40 == s.extkeyin % 0x40
            &&& after.extkeyin / 0x80 == s.extkeyin / 0x80
            &&& after.spi.tsc == s.spi.tsc.touched(x, y, down)
            &&& after.spi.firmware == s.spi.firmware
        }),
{
}

/// Each timer that overflows with its interrupt enabled raises its own flag, on the CPU
/// to which it belongs.
pub proof fn law_timer_interrupts(s: SharedView, a: int, b: int)
    ensures
        ({
            let t = s.timers9;
            let u = s.timers7;
            let m9 = |i: int, m: u32| if t.fires(a, i) { m } else { 0u32 };
            let m7 = |i: int, m: u32| if u.fires(b, i) { m } else { 0u32 };
            let after = s.ticked(a, b);
            &&& after.irq9.iflag == s.irq9.iflag | m9(0, 0x8) | m9(1, 0x10) | m9(2, 0x20) | m9(
                3,
                0x40,
            )
            &&& after.irq7.iflag == s.irq7.iflag | m7(0, 0x8) | m7(1, 0x10) | m7(2, 0x20) | m7(
                3,
                0x40,
            )
            &&& after.timers9 == t.ticked(a)
            &&& after.timers7 == u.ticked(b)
        }),
{
    lemma_timer_flags(s.irq9, s.timers9, a);
    lemma_timer_flags(s.irq7, s.timers7, b);
}

proof fn lemma_nothing_raised(x: u32)
    by (bit_vector)
    ensures
        x | 0 == x,
{
}

proof fn lemma_timer_flags(irq: InterruptController, t: Timers, cycles: int)
    ensures
        ({
            let m = |i: int, m: u32| if t.fires(cycles, i) { m } else { 0u32 };
            timers_requested(irq, t, cycles, 4).iflag == irq.iflag | m(0, 0x8) | m(1, 0x10) | m(
                2,
                0x20,
            ) | m(3, 0x40)
        }),
{
    reveal_with_fuel(timers_requested, 5);
    let m0 = if t.fires(cycles, 0) { 0x8u32 } else { 0 };
    let m1 = if t.fires(cycles, 1) { 0x10u32 } else { 0 };
    let m2 = if t.fires(cycles, 2) { 0x20u32 } else { 0 };
    let f0 = irq.iflag;
    lemma_nothing_raised(f0);
    lemma_nothing_raised(f0 | m0);
    lemma_nothing_raised(f0 | m0 | m1);
    lemma_nothing_raised(f0 | m0 | m1 | m2);
    assert(timers_requested(irq, t, cycles, 1).iflag == f0 | m0);
    assert(timers_requested(irq, t, cycles, 2).iflag == f0 | m0 | m1);
    assert(timers_requested(irq, t, cycles, 3).iflag == f0 | m0 | m1 | m2);
}

/// The geometry FIFO asks for its interrupt while it is less than half full in mode 1,
/// while it is empty in mode 2, and in no other mode.
pub proof fn law_geometry_interrupt(s: SharedView)
    ensures
        ({
            let n = s.gpu3d.fifo.entries;
            let mode = s.gpu3d.fifo.irq_mode;
            let ask = (mode == 1 && n < 128) || (mode == 2 && n == 0);
            s.levels_requested().irq9 == if ask {
                s.irq9.raised(Irq::GxFifo.mask())
            } else {
                s.irq9
            }
        }),
        s.levels_requested().irq7 == s.irq7,
{
}

/// Words of a card transfer go behind those that wait, and bit 23 shows that there are
/// some; a transfer without any is over, and bit 31 falls with bit 23.
pub proof fn law_card_words_become_readable(s: SharedView)
    ensures
        ({
            let after = s.card_ready();
            let some = s.slot1_data.len() + s.slot1_pending.len() > 0;
            &&& after.slot1_data == s.slot1_data + s.slot1_pending
            &&& after.slot1_pending.len() == 0
            &&& (after.slot1_romctrl / 0x80_0000 % 2 == 1) == some
            &&& some ==> after.slot1_romctrl / 0x100_0000 == s.slot1_romctrl / 0x100_0000
            &&& !some ==> after.slot1_romctrl < 0x8000_0000
            &&& after.slot1_romctrl % 0x80_0000 == s.slot1_romctrl % 0x80_0000
        }),
{
}

/// The end of a card transfer interrupts the CPU that owns the card, once.
pub proof fn law_card_end_interrupt(s: SharedView)
    ensures
        ({
            let after = s.card_done();
            let to7 = s.slot1_complete_irq_to_arm7;
            &&& !after.slot1_complete_irq
            &&& after.irq9 == if s.slot1_complete_irq && !to7 {
                s.irq9.raised(Irq::Slot1Data.mask())
            } else {
                s.irq9
            }
            &&& after.irq7 == if s.slot1_complete_irq && to7 {
                s.irq7.raised(Irq::Slot1Data.mask())
            } else {
                s.irq7
            }
            &&& after.card_done() == after
        }),
{
}

/// Main memory repeats every 4 MB, and a word has its lowest byte first.
pub proof fn law_memory_words(s: SharedView, addr: int)
    requires
        0 <= addr,
        addr % 0x40_0000 <= 0x3F_FFFC,
    ensures
        s.word(addr + 0x40_0000) == s.word(addr),
        s.word(addr) % 0x100 == s.main_ram[addr % 0x40_0000],
        s.word(addr) / 0x100 % 0x100 == s.main_ram[addr % 0x40_0000 + 1],
        s.word(addr) / 0x1_0000 % 0x100 == s.main_ram[addr % 0x40_0000 + 2],
        s.word(addr) / 0x100_0000 == s.main_ram[addr % 0x40_0000 + 3],
{
    let off = addr % 0x40_0000;
    let (a, b, c, d) = (
        s.main_ram[off] as int,
        s.main_ram[off + 1] as int,
        s.main_ram[off + 2] as int,
        s.main_ram[off + 3] as int,
    );
    let w = s.word(addr);
    fixed::lemma_low_field(w, a, b + 0x100 * (c + 0x100 * d), 0x100);
    fixed::lemma_low_field(b + 0x100 * (c + 0x100 * d), b, c + 0x100 * d, 0x100);
    fixed::lemma_low_field(c + 0x100 * d, c, d, 0x100);
    vstd::arithmetic::div_mod::lemma_div_denominator(w, 0x100, 0x100);
    vstd::arithmetic::div_mod::lemma_div_denominator(w, 0x1_0000, 0x100);
}

} // verus!
