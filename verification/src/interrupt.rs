//! Per-CPU interrupt controllers.
//!
//! Each CPU has its own 32-bit `IE`/`IF` registers and `IME`. Some bits are
//! CPU-specific:
//!
//! | Bit | ARM9 source | ARM7 source |
//! |---|---|---|
//! | 0 | VBlank | VBlank |
//! | 1 | HBlank | HBlank |
//! | 2 | VCount match | VCount match |
//! | 3-6 | Timer 0-3 | Timer 0-3 |
//! | 7 | (reserved) | SIO/RCNT |
//! | 8-11 | DMA 0-3 | DMA 0-3 |
//! | 12 | Keypad | Keypad |
//! | 13 | GBA-slot | GBA-slot |
//! | 16 | IPC sync | IPC sync |
//! | 17 | IPC send FIFO empty | IPC send FIFO empty |
//! | 18 | IPC recv FIFO not-empty | IPC recv FIFO not-empty |
//! | 19 | NDS-slot data ready | NDS-slot data ready |
//! | 20 | NDS-slot card line | NDS-slot card line |
//! | 21 | GX FIFO | (reserved) |
//! | 22 | (reserved) | Lid open/close |
//! | 23 | (reserved) | SPI bus |
//! | 24 | (reserved) | WiFi |

use vstd::prelude::*;

verus! {

/// Interrupt sources.
#[derive(Debug, Clone, Copy, PartialEq, Eq, Structural)]
pub enum Irq {
    VBlank,
    HBlank,
    VCountMatch,
    Timer0,
    Timer1,
    Timer2,
    Timer3,
    /// ARM7 only.
    Sio,
    Dma0,
    Dma1,
    Dma2,
    Dma3,
    Keypad,
    GbaSlot,
    IpcSync,
    IpcSendEmpty,
    IpcRecvNotEmpty,
    Slot1Data,
    Slot1Card,
    /// ARM9 only.
    GxFifo,
    /// ARM7 only.
    LidOpen,
    /// ARM7 only.
    Spi,
    /// ARM7 only.
    WiFi,
}

impl Irq {
    /// The bit of a source in `IE` and `IF`.
    pub open spec fn mask(self) -> u32 {
        match self {
            Irq::VBlank => 0x1,
            Irq::HBlank => 0x2,
            Irq::VCountMatch => 0x4,
            Irq::Timer0 => 0x8,
            Irq::Timer1 => 0x10,
            Irq::Timer2 => 0x20,
            Irq::Timer3 => 0x40,
            Irq::Sio => 0x80,
            Irq::Dma0 => 0x100,
            Irq::Dma1 => 0x200,
            Irq::Dma2 => 0x400,
            Irq::Dma3 => 0x800,
            Irq::Keypad => 0x1000,
            Irq::GbaSlot => 0x2000,
            Irq::IpcSync => 0x1_0000,
            Irq::IpcSendEmpty => 0x2_0000,
            Irq::IpcRecvNotEmpty => 0x4_0000,
            Irq::Slot1Data => 0x8_0000,
            Irq::Slot1Card => 0x10_0000,
            Irq::GxFifo => 0x20_0000,
            Irq::LidOpen => 0x40_0000,
            Irq::Spi => 0x80_0000,
            Irq::WiFi => 0x100_0000,
        }
    }

    /// The bit of a source in `IE` and `IF`.
    pub fn bit(self) -> (r: u32)
        ensures
            r == self.mask(),
    {
        match self {
            Irq::VBlank => 0x1,
            Irq::HBlank => 0x2,
            Irq::VCountMatch => 0x4,
            Irq::Timer0 => 0x8,
            Irq::Timer1 => 0x10,
            Irq::Timer2 => 0x20,
            Irq::Timer3 => 0x40,
            Irq::Sio => 0x80,
            Irq::Dma0 => 0x100,
            Irq::Dma1 => 0x200,
            Irq::Dma2 => 0x400,
            Irq::Dma3 => 0x800,
            Irq::Keypad => 0x1000,
            Irq::GbaSlot => 0x2000,
            Irq::IpcSync => 0x1_0000,
            Irq::IpcSendEmpty => 0x2_0000,
            Irq::IpcRecvNotEmpty => 0x4_0000,
            Irq::Slot1Data => 0x8_0000,
            Irq::Slot1Card => 0x10_0000,
            Irq::GxFifo => 0x20_0000,
            Irq::LidOpen => 0x40_0000,
            Irq::Spi => 0x80_0000,
            Irq::WiFi => 0x100_0000,
        }
    }
}

/// One CPU's interrupt controller.
#[derive(Debug, Clone, Copy)]
pub struct InterruptController {
    /// IE: which sources may interrupt the CPU.
    pub ie: u32,
    /// IF: which sources have fired and wait for acknowledgment. Writing 1 to a
    /// bit clears it.
    pub iflag: u32,
    /// IME: when off, the CPU is never interrupted.
    pub ime: bool,
}

impl InterruptController {
    /// The controller with some request flags added.
    pub open spec fn raised(self, mask: u32) -> InterruptController {
        InterruptController { iflag: self.iflag | mask, ..self }
    }

    /// The controller with some request flags cleared.
    pub open spec fn acknowledged(self, mask: u32) -> InterruptController {
        InterruptController { iflag: self.iflag & !mask, ..self }
    }

    /// Whether the CPU is to be interrupted.
    pub open spec fn pending(self) -> bool {
        self.ime && self.ie & self.iflag != 0
    }

    pub fn new() -> (r: Self)
        ensures
            r == (InterruptController { ie: 0, iflag: 0, ime: false }),
    {
        InterruptController { ie: 0, iflag: 0, ime: false }
    }

    pub fn request(&mut self, irq: Irq)
        ensures
            *final(self) == old(self).raised(irq.mask()),
    {
        self.iflag = self.iflag | irq.bit();
    }

    pub fn raise_bits(&mut self, mask: u32)
        ensures
            *final(self) == old(self).raised(mask),
    {
        self.iflag = self.iflag | mask;
    }

    /// Acknowledge: write-1-to-clear.
    pub fn acknowledge(&mut self, mask: u32)
        ensures
            *final(self) == old(self).acknowledged(mask),
    {
        self.iflag = self.iflag & !mask;
    }

    pub fn has_pending(&self) -> (r: bool)
        ensures
            r == self.pending(),
    {
        self.ime && (self.ie & self.iflag) != 0
    }

    /// Whether an enabled source has fired, whatever IME says. This ends a halt.
    pub fn has_unmasked_irq(&self) -> (r: bool)
        ensures
            r == (self.ie & self.iflag != 0),
    {
        (self.ie & self.iflag) != 0
    }

    /// Whether an enabled source among `mask` has fired.
    pub fn has_matching_irq(&self, mask: u32) -> (r: bool)
        ensures
            r == (self.ie & self.iflag & mask != 0),
    {
        (self.ie & self.iflag & mask) != 0
    }

    pub fn read_ie(&self) -> (r: u32)
        ensures
            r == self.ie,
    {
        self.ie
    }

    pub fn write_ie(&mut self, v: u32)
        ensures
            *final(self) == (InterruptController { ie: v, ..*old(self) }),
    {
        self.ie = v;
    }

    pub fn read_if(&self) -> (r: u32)
        ensures
            r == self.iflag,
    {
        self.iflag
    }

    pub fn write_if(&mut self, v: u32)
        ensures
            *final(self) == old(self).acknowledged(v),
    {
        self.acknowledge(v);
    }

    pub fn read_ime(&self) -> (r: u32)
        ensures
            r == if self.ime { 1u32 } else { 0u32 },
    {
        if self.ime {
            1
        } else {
            0
        }
    }

    pub fn write_ime(&mut self, v: u32)
        ensures
            *final(self) == (InterruptController { ime: v % 2 == 1, ..*old(self) }),
    {
        self.ime = v % 2 == 1;
    }
}

impl Default for InterruptController {
    fn default() -> (r: Self)
        ensures
            r == (InterruptController { ie: 0, iflag: 0, ime: false }),
    {
        Self::new()
    }
}

proof fn lemma_request_bits(ie: u32, iflag: u32, m: u32) by (bit_vector)
    requires
        ie & m != 0,
    ensures
        ie & (iflag | m) != 0,
{
}

proof fn lemma_acknowledge_bits(iflag: u32, m: u32, other: u32) by (bit_vector)
    ensures
        (iflag & !m) & m == 0,
        other & m == 0 ==> (iflag & !m) & other == iflag & other,
        ((iflag | m) & !m) == iflag & !m,
{
}

/// A request of an enabled source is pending exactly where IME is on.
pub proof fn law_request_is_pending(c: InterruptController, irq: Irq)
    requires
        c.ie & irq.mask() != 0,
    ensures
        c.raised(irq.mask()).pending() == c.ime,
{
    lemma_request_bits(c.ie, c.iflag, irq.mask());
}

/// Acknowledging clears the requests of a mask and no others; acknowledging a
/// request undoes it.
pub proof fn law_acknowledge_clears_mask(c: InterruptController, mask: u32, other: u32)
    ensures
        c.acknowledged(mask).iflag & mask == 0,
        other & mask == 0 ==> c.acknowledged(mask).iflag & other == c.iflag & other,
        c.raised(mask).acknowledged(mask) == c.acknowledged(mask),
{
    lemma_acknowledge_bits(c.iflag, mask, other);
}

/// With IME off nothing is pending.
pub proof fn law_master_enable_gates(c: InterruptController)
    requires
        !c.ime,
    ensures
        !c.pending(),
{
}

/// The sources lie in the order of the table: each group of neighbors doubles from bit
/// to bit, the first group from bit 0 and the second from bit 16 on.
pub proof fn law_source_bits()
    ensures
        Irq::VBlank.mask() == 1,
        Irq::HBlank.mask() == 2 * Irq::VBlank.mask(),
        Irq::VCountMatch.mask() == 2 * Irq::HBlank.mask(),
        Irq::Timer0.mask() == 2 * Irq::VCountMatch.mask(),
        Irq::Timer1.mask() == 2 * Irq::Timer0.mask(),
        Irq::Timer2.mask() == 2 * Irq::Timer1.mask(),
        Irq::Timer3.mask() == 2 * Irq::Timer2.mask(),
        Irq::Sio.mask() == 2 * Irq::Timer3.mask(),
        Irq::Dma0.mask() == 2 * Irq::Sio.mask(),
        Irq::Dma1.mask() == 2 * Irq::Dma0.mask(),
        Irq::Dma2.mask() == 2 * Irq::Dma1.mask(),
        Irq::Dma3.mask() == 2 * Irq::Dma2.mask(),
        Irq::Keypad.mask() == 2 * Irq::Dma3.mask(),
        Irq::GbaSlot.mask() == 2 * Irq::Keypad.mask(),
        Irq::IpcSync.mask() == 8 * Irq::GbaSlot.mask(),
        Irq::IpcSendEmpty.mask() == 2 * Irq::IpcSync.mask(),
        Irq::IpcRecvNotEmpty.mask() == 2 * Irq::IpcSendEmpty.mask(),
        Irq::Slot1Data.mask() == 2 * Irq::IpcRecvNotEmpty.mask(),
        Irq::Slot1Card.mask() == 2 * Irq::Slot1Data.mask(),
        Irq::GxFifo.mask() == 2 * Irq::Slot1Card.mask(),
        Irq::LidOpen.mask() == 2 * Irq::GxFifo.mask(),
        Irq::Spi.mask() == 2 * Irq::LidOpen.mask(),
        Irq::WiFi.mask() == 2 * Irq::Spi.mask(),
{
}

proof fn lemma_disabled_bits(ie: u32, iflag: u32, m: u32) by (bit_vector)
    requires
        ie & m == 0,
    ensures
        ie & (iflag | m) == ie & iflag,
        (iflag | m) & m == m,
{
}

/// A request of a source that is not enabled stays in the flags and changes nothing
/// for the CPU.
pub proof fn law_disabled_request_waits(c: InterruptController, irq: Irq)
    requires
        c.ie & irq.mask() == 0,
    ensures
        c.raised(irq.mask()).pending() == c.pending(),
        c.raised(irq.mask()).iflag & irq.mask() == irq.mask(),
        c.raised(irq.mask()).ie == c.ie,
        c.raised(irq.mask()).ime == c.ime,
{
    lemma_disabled_bits(c.ie, c.iflag, irq.mask());
}

} // verus!
